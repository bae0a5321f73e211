//! The shape of JSON input that type inference reads, and the calls into
//! `serde_json` that produce it.
//!
//! Inference only looks at the top level of each record: whether it is an
//! object, and for each of its keys (in document order) what kind of value
//! the key holds. `JsonRecord` holds exactly that as plain values.
use vstd::prelude::*;

verus! {

/// The kind of a JSON value. Numbers keep what `serde_json::Number::as_i64`
/// and `as_u64` report, which is what decides between integer and float.
#[derive(Debug, Clone, Copy, PartialEq, Eq)]
pub enum JsonKind {
    Null,
    Bool,
    Number { as_i64: Option<i64>, as_u64: Option<u64> },
    Str,
    Array,
    Object,
}

/// One key of a JSON object and the kind of its value.
pub struct JsonEntry {
    pub key: String,
    pub kind: JsonKind,
}

impl View for JsonEntry {
    type V = (Seq<char>, JsonKind);

    open spec fn view(&self) -> (Seq<char>, JsonKind) {
        (self.key@, self.kind)
    }
}

/// A top-level JSON value: an object with its entries in document order, or
/// anything else.
pub enum JsonRecord {
    Object(Vec<JsonEntry>),
    NotObject,
}

impl View for JsonRecord {
    type V = Option<Seq<(Seq<char>, JsonKind)>>;

    open spec fn view(&self) -> Option<Seq<(Seq<char>, JsonKind)>> {
        match self {
            JsonRecord::Object(entries) => Some(entries@.map_values(|e: JsonEntry| e@)),
            JsonRecord::NotObject => None,
        }
    }
}

/// The abstract records of a vector of records.
pub open spec fn records_view(rs: Seq<JsonRecord>) -> Seq<Option<Seq<(Seq<char>, JsonKind)>>> {
    rs.map_values(|r: JsonRecord| r@)
}

/// The abstract outcome of a parse.
pub open spec fn parsed_view(res: Result<Vec<JsonRecord>, String>) -> Result<
    Seq<Option<Seq<(Seq<char>, JsonKind)>>>,
    Seq<char>,
> {
    match res {
        Ok(v) => Ok(records_view(v@)),
        Err(e) => Err(e@),
    }
}

/// No key occurs twice in an object.
pub open spec fn keys_distinct(entries: Seq<(Seq<char>, JsonKind)>) -> bool {
    forall|i: int, j: int|
        0 <= i < entries.len() && 0 <= j < entries.len() && i != j ==> entries[i].0
            != entries[j].0
}

/// No object among the records repeats a key.
pub open spec fn records_keys_distinct(rs: Seq<Option<Seq<(Seq<char>, JsonKind)>>>) -> bool {
    forall|i: int| 0 <= i < rs.len() && #[trigger] rs[i] is Some ==> keys_distinct(rs[i]->0)
}

/// What `serde_json::from_str::<Vec<Value>>` makes of a text, read as records
/// (or the text of its error).
pub uninterp spec fn json_array_records(text: Seq<char>) -> Result<
    Seq<Option<Seq<(Seq<char>, JsonKind)>>>,
    Seq<char>,
>;

/// What collecting `serde_json`'s stream of values over a text gives, read as
/// records (or the text of the first error).
pub uninterp spec fn json_stream_records(text: Seq<char>) -> Result<
    Seq<Option<Seq<(Seq<char>, JsonKind)>>>,
    Seq<char>,
>;

/// How many items (values and errors) `serde_json`'s stream of values over a
/// text yields.
pub uninterp spec fn json_stream_item_count(text: Seq<char>) -> nat;

#[verifier::external_type_specification]
#[verifier::external_body]
pub struct ExJsonValue(serde_json::Value);

/// Reads a `serde_json::Value` as a record: its top-level entries in map
/// order, each with the kind of its value. Used by the two parse calls below.
#[verifier::external_body]
fn record_of(value: &serde_json::Value) -> JsonRecord {
    match value.as_object() {
        Some(map) => JsonRecord::Object(
            map.iter().map(|(key, v)| JsonEntry { key: key.clone(), kind: kind_of(v) }).collect(),
        ),
        None => JsonRecord::NotObject,
    }
}

/// The variant of a `serde_json::Value`, numbers with `as_i64` and `as_u64`.
#[verifier::external_body]
fn kind_of(value: &serde_json::Value) -> JsonKind {
    match value {
        serde_json::Value::Null => JsonKind::Null,
        serde_json::Value::Bool(_) => JsonKind::Bool,
        serde_json::Value::Number(n) => JsonKind::Number { as_i64: n.as_i64(), as_u64: n.as_u64() },
        serde_json::Value::String(_) => JsonKind::Str,
        serde_json::Value::Array(_) => JsonKind::Array,
        serde_json::Value::Object(_) => JsonKind::Object,
    }
}

/// `serde_json::from_str::<Vec<Value>>`: parses a JSON array. The outcome is
/// named; objects come from `serde_json::Map`, whose keys are unique.
#[verifier::external_body]
pub(crate) fn parse_json_array(text: &str) -> (res: Result<Vec<JsonRecord>, String>)
    ensures
        parsed_view(res) == json_array_records(text@),
        res matches Ok(v) ==> records_keys_distinct(records_view(v@)),
{
    match serde_json::from_str::<Vec<serde_json::Value>>(text) {
        Ok(values) => Ok(values.iter().map(record_of).collect()),
        Err(e) => Err(e.to_string()),
    }
}

/// `serde_json::Deserializer::from_str(text).into_iter::<Value>()`, collected
/// until the first error. The outcome is named; object keys are unique.
#[verifier::external_body]
pub(crate) fn parse_json_stream(text: &str) -> (res: Result<Vec<JsonRecord>, String>)
    ensures
        parsed_view(res) == json_stream_records(text@),
        res matches Ok(v) ==> records_keys_distinct(records_view(v@)),
{
    let items = serde_json::Deserializer::from_str(text).into_iter::<serde_json::Value>();
    match items.collect::<Result<Vec<serde_json::Value>, serde_json::Error>>() {
        Ok(values) => Ok(values.iter().map(record_of).collect()),
        Err(e) => Err(e.to_string()),
    }
}

/// `serde_json::Deserializer::from_str(text).into_iter::<Value>().count()`.
#[verifier::external_body]
pub(crate) fn count_json_stream(text: &str) -> (n: usize)
    ensures
        n == json_stream_item_count(text@),
{
    serde_json::Deserializer::from_str(text).into_iter::<serde_json::Value>().count()
}

} // verus!
