//! JSON text read with `serde_json`, one level at a time: a parse gives a
//! value's kind, its scalar, or the compact JSON text of each item or entry
//! of an array or object. The library's JSON values are built from these
//! levels down to the depth that batch data and safetensors headers are
//! read to; anything deeper is kept as its compact JSON text.
use vstd::prelude::*;
use serde_json::Value;
use crate::batch::json::{JsonDocument, JsonValue};

verus! {

/// One level of a parsed JSON text.
#[derive(Debug)]
pub enum JsonLevel {
    Null,
    Bool(bool),
    /// A number, as serde_json writes it.
    Number(String),
    /// A string's contents.
    Text(String),
    /// The compact JSON text of each item.
    Array(Vec<String>),
    /// Each key, with the compact JSON text of its value, in key order.
    Object(Vec<(String, String)>),
    /// The message of the parse error.
    Invalid(String),
}

/// One level of a parsed JSON text, as values.
pub enum JsonLevelView {
    Null,
    Bool(bool),
    Number(Seq<char>),
    Text(Seq<char>),
    Array(Seq<Seq<char>>),
    Object(Seq<(Seq<char>, Seq<char>)>),
    Invalid(Seq<char>),
}

impl View for JsonLevel {
    type V = JsonLevelView;

    open spec fn view(&self) -> JsonLevelView {
        match self {
            JsonLevel::Null => JsonLevelView::Null,
            JsonLevel::Bool(b) => JsonLevelView::Bool(*b),
            JsonLevel::Number(n) => JsonLevelView::Number(n@),
            JsonLevel::Text(s) => JsonLevelView::Text(s@),
            JsonLevel::Array(items) => JsonLevelView::Array(items@.map_values(|t: String| t@)),
            JsonLevel::Object(entries) => JsonLevelView::Object(
                entries@.map_values(|e: (String, String)| (e.0@, e.1@)),
            ),
            JsonLevel::Invalid(m) => JsonLevelView::Invalid(m@),
        }
    }
}

/// What `serde_json` makes of a JSON text, one level deep.
pub uninterp spec fn json_text_level(text: Seq<char>) -> JsonLevelView;

/// What `serde_json` makes of JSON bytes: the value's compact JSON text, or
/// the message of the parse error.
pub uninterp spec fn json_bytes_compact(bytes: Seq<u8>) -> Result<Seq<char>, Seq<char>>;

/// Parses JSON text with `serde_json::from_str` into a `serde_json::Value`
/// and gives its top level: scalars as they are (numbers written with
/// `to_string`), items and entry values as their compact JSON text
/// (`to_string`), the error's message where the text is not JSON. The
/// result is what `json_text_level` names.
#[verifier::external_body]
fn json_level(text: &str) -> (r: JsonLevel)
    ensures
        r@ == json_text_level(text@),
{
    match serde_json::from_str::<Value>(text) {
        Ok(Value::Null) => JsonLevel::Null,
        Ok(Value::Bool(b)) => JsonLevel::Bool(b),
        Ok(Value::Number(n)) => JsonLevel::Number(n.to_string()),
        Ok(Value::String(s)) => JsonLevel::Text(s),
        Ok(Value::Array(a)) => JsonLevel::Array(a.iter().map(|x| x.to_string()).collect()),
        Ok(Value::Object(m)) => JsonLevel::Object(m.iter().map(|(k, x)| (k.clone(), x.to_string())).collect()),
        Err(e) => JsonLevel::Invalid(e.to_string()),
    }
}

/// Parses JSON bytes with `serde_json::from_slice` into a
/// `serde_json::Value` and gives its compact JSON text (`to_string`), or the
/// error's message. The result is what `json_bytes_compact` names.
#[verifier::external_body]
fn json_compact_of_bytes(bytes: &[u8]) -> (r: Result<String, String>)
    ensures
        match r {
            Ok(t) => json_bytes_compact(bytes@) == Ok::<Seq<char>, Seq<char>>(t@),
            Err(m) => json_bytes_compact(bytes@) == Err::<Seq<char>, Seq<char>>(m@),
        },
{
    match serde_json::from_slice::<Value>(bytes) {
        Ok(v) => Ok(v.to_string()),
        Err(e) => Err(e.to_string()),
    }
}

/// `v` is the value of the JSON text `t` read as a cell: a scalar as it is,
/// anything else kept as `t`.
pub open spec fn cell_matches(v: JsonValue, t: Seq<char>) -> bool {
    match json_text_level(t) {
        JsonLevelView::Null => v is Null,
        JsonLevelView::Bool(b) => v == JsonValue::Bool(b),
        JsonLevelView::Number(n) => v matches JsonValue::Number(x) && x@ == n,
        JsonLevelView::Text(s) => v matches JsonValue::Text(x) && x@ == s,
        _ => v matches JsonValue::Nested(x) && x@ == t,
    }
}

/// `v` is the value of the JSON text `t`, its items or entry values read as
/// cells.
pub open spec fn value_matches(v: JsonValue, t: Seq<char>) -> bool {
    match json_text_level(t) {
        JsonLevelView::Array(items) => v matches JsonValue::Array(vs, x) && x@ == t && vs@.len()
            == items.len() && forall|i: int| 0 <= i < items.len() ==> cell_matches(#[trigger] vs@[i], items[i]),
        JsonLevelView::Object(es) => v matches JsonValue::Object(vs, x) && x@ == t && vs@.len() == es.len()
            && forall|i: int|
            0 <= i < es.len() ==> (#[trigger] vs@[i]).0@ == es[i].0 && cell_matches(vs@[i].1, es[i].1),
        JsonLevelView::Invalid(_) => v matches JsonValue::Nested(x) && x@ == t,
        _ => cell_matches(v, t),
    }
}

/// `v` is the value of the JSON text `t` read two levels deep: its items or
/// entry values read as values.
pub open spec fn deep_value_matches(v: JsonValue, t: Seq<char>) -> bool {
    match json_text_level(t) {
        JsonLevelView::Array(items) => v matches JsonValue::Array(vs, x) && x@ == t && vs@.len()
            == items.len() && forall|i: int| 0 <= i < items.len() ==> value_matches(#[trigger] vs@[i], items[i]),
        JsonLevelView::Object(es) => v matches JsonValue::Object(vs, x) && x@ == t && vs@.len() == es.len()
            && forall|i: int|
            0 <= i < es.len() ==> (#[trigger] vs@[i]).0@ == es[i].0 && value_matches(vs@[i].1, es[i].1),
        JsonLevelView::Invalid(_) => v matches JsonValue::Nested(x) && x@ == t,
        _ => cell_matches(v, t),
    }
}

/// `d` is the document the JSON text `content` holds: a top-level array or
/// object with its items or entry values read as values, another value, or
/// text that is not JSON.
pub open spec fn document_matches(d: JsonDocument, content: Seq<char>) -> bool {
    match json_text_level(content) {
        JsonLevelView::Array(items) => d matches JsonDocument::Array(vs) && vs@.len() == items.len()
            && forall|i: int| 0 <= i < items.len() ==> value_matches(#[trigger] vs@[i], items[i]),
        JsonLevelView::Object(es) => d matches JsonDocument::Object(vs) && vs@.len() == es.len()
            && forall|i: int|
            0 <= i < es.len() ==> (#[trigger] vs@[i]).0@ == es[i].0 && value_matches(vs@[i].1, es[i].1),
        JsonLevelView::Invalid(_) => d is Invalid,
        _ => d is Scalar,
    }
}

/// The value of the JSON text `t` read as a cell.
fn cell_from_text(t: &String) -> (v: JsonValue)
    ensures
        cell_matches(v, t@),
{
    match json_level(t.as_str()) {
        JsonLevel::Null => JsonValue::Null,
        JsonLevel::Bool(b) => JsonValue::Bool(b),
        JsonLevel::Number(n) => JsonValue::Number(n),
        JsonLevel::Text(s) => JsonValue::Text(s),
        _ => JsonValue::Nested(t.clone()),
    }
}

/// The cells of the texts `items`.
fn cells_from_texts(items: &Vec<String>) -> (vs: Vec<JsonValue>)
    ensures
        vs@.len() == items@.len(),
        forall|i: int| 0 <= i < items@.len() ==> cell_matches(#[trigger] vs@[i], items@[i]@),
{
    let mut vs: Vec<JsonValue> = Vec::new();
    let mut i: usize = 0;
    while i < items.len()
        invariant
            i <= items@.len(),
            vs@.len() == i,
            forall|k: int| 0 <= k < i ==> cell_matches(#[trigger] vs@[k], items@[k]@),
        decreases items@.len() - i,
    {
        vs.push(cell_from_text(&items[i]));
        i = i + 1;
    }
    vs
}

/// The entries of `entries`, each value read as a cell.
fn cell_entries(entries: &Vec<(String, String)>) -> (vs: Vec<(String, JsonValue)>)
    ensures
        vs@.len() == entries@.len(),
        forall|i: int|
            0 <= i < entries@.len() ==> (#[trigger] vs@[i]).0@ == entries@[i].0@ && cell_matches(
                vs@[i].1,
                entries@[i].1@,
            ),
{
    let mut vs: Vec<(String, JsonValue)> = Vec::new();
    let mut i: usize = 0;
    while i < entries.len()
        invariant
            i <= entries@.len(),
            vs@.len() == i,
            forall|k: int|
                0 <= k < i ==> (#[trigger] vs@[k]).0@ == entries@[k].0@ && cell_matches(
                    vs@[k].1,
                    entries@[k].1@,
                ),
        decreases entries@.len() - i,
    {
        vs.push((entries[i].0.clone(), cell_from_text(&entries[i].1)));
        i = i + 1;
    }
    vs
}

/// The value of the JSON text `t`, its items or entry values read as cells.
fn value_from_text(t: &String) -> (v: JsonValue)
    ensures
        value_matches(v, t@),
{
    match json_level(t.as_str()) {
        JsonLevel::Null => JsonValue::Null,
        JsonLevel::Bool(b) => JsonValue::Bool(b),
        JsonLevel::Number(n) => JsonValue::Number(n),
        JsonLevel::Text(s) => JsonValue::Text(s),
        JsonLevel::Array(items) => JsonValue::Array(cells_from_texts(&items), t.clone()),
        JsonLevel::Object(entries) => JsonValue::Object(cell_entries(&entries), t.clone()),
        JsonLevel::Invalid(_) => JsonValue::Nested(t.clone()),
    }
}

/// The values of the texts `items`.
fn values_from_texts(items: &Vec<String>) -> (vs: Vec<JsonValue>)
    ensures
        vs@.len() == items@.len(),
        forall|i: int| 0 <= i < items@.len() ==> value_matches(#[trigger] vs@[i], items@[i]@),
{
    let mut vs: Vec<JsonValue> = Vec::new();
    let mut i: usize = 0;
    while i < items.len()
        invariant
            i <= items@.len(),
            vs@.len() == i,
            forall|k: int| 0 <= k < i ==> value_matches(#[trigger] vs@[k], items@[k]@),
        decreases items@.len() - i,
    {
        vs.push(value_from_text(&items[i]));
        i = i + 1;
    }
    vs
}

/// The entries of `entries`, each value read as a value.
fn value_entries(entries: &Vec<(String, String)>) -> (vs: Vec<(String, JsonValue)>)
    ensures
        vs@.len() == entries@.len(),
        forall|i: int|
            0 <= i < entries@.len() ==> (#[trigger] vs@[i]).0@ == entries@[i].0@ && value_matches(
                vs@[i].1,
                entries@[i].1@,
            ),
{
    let mut vs: Vec<(String, JsonValue)> = Vec::new();
    let mut i: usize = 0;
    while i < entries.len()
        invariant
            i <= entries@.len(),
            vs@.len() == i,
            forall|k: int|
                0 <= k < i ==> (#[trigger] vs@[k]).0@ == entries@[k].0@ && value_matches(
                    vs@[k].1,
                    entries@[k].1@,
                ),
        decreases entries@.len() - i,
    {
        vs.push((entries[i].0.clone(), value_from_text(&entries[i].1)));
        i = i + 1;
    }
    vs
}

/// The value of the JSON text `t` read two levels deep.
pub fn deep_value_from_text(t: &String) -> (v: JsonValue)
    ensures
        deep_value_matches(v, t@),
{
    match json_level(t.as_str()) {
        JsonLevel::Null => JsonValue::Null,
        JsonLevel::Bool(b) => JsonValue::Bool(b),
        JsonLevel::Number(n) => JsonValue::Number(n),
        JsonLevel::Text(s) => JsonValue::Text(s),
        JsonLevel::Array(items) => JsonValue::Array(values_from_texts(&items), t.clone()),
        JsonLevel::Object(entries) => JsonValue::Object(value_entries(&entries), t.clone()),
        JsonLevel::Invalid(_) => JsonValue::Nested(t.clone()),
    }
}

/// The document a JSON text holds.
pub fn read_json_document(content: &str) -> (d: JsonDocument)
    ensures
        document_matches(d, content@),
{
    match json_level(content) {
        JsonLevel::Array(items) => JsonDocument::Array(values_from_texts(&items)),
        JsonLevel::Object(entries) => JsonDocument::Object(value_entries(&entries)),
        JsonLevel::Invalid(_) => JsonDocument::Invalid,
        _ => JsonDocument::Scalar,
    }
}

/// The value JSON bytes hold, read two levels deep, or the parse error's
/// message.
pub fn read_json_bytes(bytes: &[u8]) -> (r: Result<JsonValue, String>)
    ensures
        match json_bytes_compact(bytes@) {
            Ok(t) => r matches Ok(v) && deep_value_matches(v, t),
            Err(m) => r matches Err(e) && e@ == m,
        },
{
    match json_compact_of_bytes(bytes) {
        Ok(t) => Ok(deep_value_from_text(&t)),
        Err(e) => Err(e),
    }
}

} // verus!
