//! Schemas as JSON text.
use crate::schema::{Schema, SchemaView};
use crate::schema::de::{parse_schema, parsed_schema, SchemaError};
use crate::schema::json::{entries_view, json_view, jsons_view, str_eq, Json, JsonView, Number};
use crate::schema::laws::lemma_schema_json_writable;
use crate::schema::se::{schema_json, serialize_schema, Entries};
use serde_json::Value;
use vstd::prelude::*;
use vstd::utf8::encode_utf8;

verus! {

/// `serde_json::Value`, of which nothing is seen here but through
/// [`value_json`].
#[verifier::external_type_specification]
#[verifier::external_body]
pub struct ExValue(Value);

/// What a `serde_json::Value` holds: null, a boolean, a number, a string, an
/// array of values or an object, whose entries stand in the order in which
/// the value keeps them.
pub uninterp spec fn value_json(value: Value) -> JsonView;

/// What `serde_json::from_slice` reads from a text as a
/// `serde_json::Value`: nothing where it reports an error.
pub uninterp spec fn json_of_text(text: Seq<u8>) -> Option<JsonView>;

/// The text that `serde_json::to_string` writes for a
/// `serde_json::Value` that holds `json`.
pub uninterp spec fn text_of_json(json: JsonView) -> Seq<char>;

/// Whether no two entries have the same key.
pub open spec fn distinct_keys(entries: Entries) -> bool {
    forall|i: int, j: int| 0 <= i < j < entries.len() ==> entries[i].0 != entries[j].0
}

/// Whether every value of a list can be handed to `serde_json` as it is.
pub open spec fn all_writable(items: Seq<JsonView>) -> bool
    decreases items,
{
    forall|i: int| 0 <= i < items.len() ==> writable(#[trigger] items[i])
}

/// Whether the value of every entry can be handed to `serde_json` as it is.
pub open spec fn all_values_writable(entries: Entries) -> bool
    decreases entries,
{
    forall|i: int| 0 <= i < entries.len() ==> writable((#[trigger] entries[i]).1)
}

/// Whether a JSON value can be handed to `serde_json` as it is: it holds
/// no number but integers, a non-negative one as `PosInt` and a negative one
/// as `NegInt`, and no object in it has two entries with one key.
pub open spec fn writable(json: JsonView) -> bool
    decreases json,
{
    match json {
        JsonView::Null => true,
        JsonView::Bool(_) => true,
        JsonView::Number(Number::PosInt(_)) => true,
        JsonView::Number(Number::NegInt(n)) => n < 0,
        JsonView::Number(Number::Fraction) => false,
        JsonView::String(_) => true,
        JsonView::Array(items) => all_writable(items),
        JsonView::Object(entries) => distinct_keys(entries) && all_values_writable(entries),
    }
}

/// Calls `serde_json::from_slice` for a `serde_json::Value`. The contract
/// names what is read; an error of `serde_json` becomes `None`.
#[verifier::external_body]
fn value_from_slice(text: &[u8]) -> (value: Option<Value>)
    ensures
        match value {
            Some(v) => json_of_text(text@) == Some(value_json(v)),
            None => json_of_text(text@) is None,
        },
{
    serde_json::from_slice::<Value>(text).ok()
}

/// The parts of a `serde_json::Value`, one level deep.
pub enum Parts<'a> {
    /// `null`
    Null,
    /// `true` or `false`
    Bool(bool),
    /// A number
    Number(Number),
    /// A string
    String(&'a String),
    /// An array, with the values in it
    Array(&'a Vec<Value>),
    /// An object, with its entries in their order
    Object(Vec<(&'a String, &'a Value)>),
}

/// What the parts hold.
pub open spec fn parts_json(parts: Parts) -> JsonView {
    match parts {
        Parts::Null => JsonView::Null,
        Parts::Bool(b) => JsonView::Bool(b),
        Parts::Number(n) => JsonView::Number(n),
        Parts::String(s) => JsonView::String(s@),
        Parts::Array(items) => JsonView::Array(values_json(*items)),
        Parts::Object(entries) => JsonView::Object(pairs_json(entries)),
    }
}

/// Takes a `serde_json::Value` apart, one level deep: tells its variants
/// apart and hands out what they hold, the entries of an object in the
/// order in which `serde_json::Map` walks them. The contract says that
/// nothing is changed on the way, but that of a number which is no 64-bit
/// integer only that much is kept.
#[verifier::external_body]
fn value_parts<'a>(value: &'a Value) -> (parts: Parts<'a>)
    ensures
        parts_json(parts) == value_json(*value),
{
    match value {
        Value::Null => Parts::Null,
        Value::Bool(b) => Parts::Bool(*b),
        Value::Number(n) => Parts::Number(match (n.as_u64(), n.as_i64()) {
            (Some(u), _) => Number::PosInt(u),
            (_, Some(i)) => Number::NegInt(i),
            _ => Number::Fraction,
        }),
        Value::String(s) => Parts::String(s),
        Value::Array(a) => Parts::Array(a),
        Value::Object(o) => Parts::Object(o.iter().collect()),
    }
}

/// The parts that a `serde_json::Value` is built of, one level deep.
pub enum NewParts {
    /// `null`
    Null,
    /// `true` or `false`
    Bool(bool),
    /// An integer that is not negative
    PosInt(u64),
    /// An integer that is negative
    NegInt(i64),
    /// A string
    String(String),
    /// An array, with the values in it
    Array(Vec<Value>),
    /// An object, with its entries in their order
    Object(Vec<(String, Value)>),
}

/// What a value holds that is built of the parts.
pub open spec fn new_parts_json(parts: NewParts) -> JsonView {
    match parts {
        NewParts::Null => JsonView::Null,
        NewParts::Bool(b) => JsonView::Bool(b),
        NewParts::PosInt(n) => JsonView::Number(Number::PosInt(n)),
        NewParts::NegInt(n) => JsonView::Number(Number::NegInt(n)),
        NewParts::String(s) => JsonView::String(s@),
        NewParts::Array(items) => JsonView::Array(values_json(items)),
        NewParts::Object(entries) => JsonView::Object(new_pairs_json(entries)),
    }
}

/// Builds a `serde_json::Value` of its parts, one level deep, an object
/// with `serde_json::Map`, which keeps its entries in the order in which
/// they come. The contract says that the value holds the parts as they are
/// given; for this a negative integer must be negative and the keys of an
/// object must differ, because `serde_json` keeps a non-negative integer as
/// a positive one and of two entries with one key only one.
#[verifier::external_body]
fn value_of_parts(parts: NewParts) -> (value: Value)
    requires
        parts matches NewParts::NegInt(n) ==> n < 0,
        parts is Object ==> distinct_keys(new_parts_json(parts)->Object_0),
    ensures
        value_json(value) == new_parts_json(parts),
{
    match parts {
        NewParts::Null => Value::Null,
        NewParts::Bool(b) => Value::Bool(b),
        NewParts::PosInt(n) => Value::from(n),
        NewParts::NegInt(n) => Value::from(n),
        NewParts::String(s) => Value::String(s),
        NewParts::Array(a) => Value::Array(a),
        NewParts::Object(o) => Value::Object(o.into_iter().collect()),
    }
}

/// What the values of a list hold.
pub open spec fn values_json(items: Vec<Value>) -> Seq<JsonView> {
    Seq::new(items@.len(), |i: int| value_json(items@[i]))
}

/// What the entries of an object hold that were handed out.
pub open spec fn pairs_json(entries: Vec<(&String, &Value)>) -> Entries {
    Seq::new(entries@.len(), |i: int| ((*entries@[i].0)@, value_json(*entries@[i].1)))
}

/// What the entries hold that an object is built of.
pub open spec fn new_pairs_json(entries: Vec<(String, Value)>) -> Entries {
    Seq::new(entries@.len(), |i: int| (entries@[i].0@, value_json(entries@[i].1)))
}

/// The [`Json`] that holds what a `serde_json::Value` holds.
fn json_from_value(value: &Value) -> (json: Json)
    ensures
        json@ == value_json(*value),
    decreases value_json(*value),
{
    match value_parts(value) {
        Parts::Null => Json::Null,
        Parts::Bool(b) => Json::Bool(b),
        Parts::Number(n) => Json::Number(n),
        Parts::String(s) => Json::String(s.clone()),
        Parts::Array(items) => {
            assert(value_json(*value)->Array_0 == values_json(*items));
            assert(decreases_to!(value_json(*value) => value_json(*value)->Array_0));
            Json::Array(jsons_from_values(items))
        },
        Parts::Object(entries) => {
            assert(value_json(*value)->Object_0 == pairs_json(entries));
            assert(decreases_to!(value_json(*value) => value_json(*value)->Object_0));
            Json::Object(entries_from_pairs(&entries))
        },
    }
}

/// The [`Json`]s that hold what the values of a list hold.
fn jsons_from_values(items: &Vec<Value>) -> (jsons: Vec<Json>)
    ensures
        jsons_view(jsons) == values_json(*items),
    decreases values_json(*items),
{
    let mut jsons: Vec<Json> = Vec::new();
    let mut i: usize = 0;
    while i < items.len()
        invariant
            i <= items@.len(),
            jsons@.len() == i,
            forall|k: int| 0 <= k < i ==> json_view(jsons@[k]) == value_json(items@[k]),
        decreases items@.len() - i,
    {
        assert(values_json(*items)[i as int] == value_json(items@[i as int]));
        jsons.push(json_from_value(&items[i]));
        i += 1;
    }
    assert(jsons_view(jsons) =~= values_json(*items));
    jsons
}

/// The entries that hold what the entries of an object hold.
fn entries_from_pairs(pairs: &Vec<(&String, &Value)>) -> (entries: Vec<(String, Json)>)
    ensures
        entries_view(entries) == pairs_json(*pairs),
    decreases pairs_json(*pairs),
{
    let mut entries: Vec<(String, Json)> = Vec::new();
    let mut i: usize = 0;
    while i < pairs.len()
        invariant
            i <= pairs@.len(),
            entries@.len() == i,
            forall|k: int|
                0 <= k < i ==> entries@[k].0@ == (*pairs@[k].0)@ && json_view(entries@[k].1)
                    == value_json(*pairs@[k].1),
        decreases pairs@.len() - i,
    {
        assert(pairs_json(*pairs)[i as int].1 == value_json(*pairs@[i as int].1));
        let key = pairs[i].0.clone();
        let item = json_from_value(pairs[i].1);
        entries.push((key, item));
        i += 1;
    }
    assert(entries_view(entries) =~= pairs_json(*pairs));
    entries
}

/// The `serde_json::Value` that holds what a [`Json`] holds.
fn value_from_json(json: &Json) -> (value: Value)
    requires
        writable(json@),
    ensures
        value_json(value) == json@,
    decreases json,
{
    match json {
        Json::Null => value_of_parts(NewParts::Null),
        Json::Bool(b) => value_of_parts(NewParts::Bool(*b)),
        Json::Number(Number::PosInt(n)) => value_of_parts(NewParts::PosInt(*n)),
        Json::Number(Number::NegInt(n)) => value_of_parts(NewParts::NegInt(*n)),
        Json::Number(Number::Fraction) => value_of_parts(NewParts::Null),
        Json::String(s) => value_of_parts(NewParts::String(s.clone())),
        Json::Array(items) => value_of_parts(NewParts::Array(values_from_jsons(items))),
        Json::Object(entries) => value_of_parts(NewParts::Object(pairs_from_entries(entries))),
    }
}

/// The values that hold what the [`Json`]s of a list hold.
fn values_from_jsons(items: &Vec<Json>) -> (values: Vec<Value>)
    requires
        all_writable(jsons_view(*items)),
    ensures
        values_json(values) == jsons_view(*items),
    decreases items,
{
    let mut values: Vec<Value> = Vec::new();
    let mut i: usize = 0;
    while i < items.len()
        invariant
            i <= items@.len(),
            all_writable(jsons_view(*items)),
            values@.len() == i,
            forall|k: int| 0 <= k < i ==> value_json(values@[k]) == json_view(items@[k]),
        decreases items@.len() - i,
    {
        assert(writable(jsons_view(*items)[i as int]));
        values.push(value_from_json(&items[i]));
        i += 1;
    }
    assert(values_json(values) =~= jsons_view(*items));
    values
}

/// The entries of values that hold what the entries of an object hold.
fn pairs_from_entries(entries: &Vec<(String, Json)>) -> (pairs: Vec<(String, Value)>)
    requires
        all_values_writable(entries_view(*entries)),
    ensures
        new_pairs_json(pairs) == entries_view(*entries),
    decreases entries,
{
    let mut pairs: Vec<(String, Value)> = Vec::new();
    let mut i: usize = 0;
    while i < entries.len()
        invariant
            i <= entries@.len(),
            all_values_writable(entries_view(*entries)),
            pairs@.len() == i,
            forall|k: int|
                0 <= k < i ==> pairs@[k].0@ == entries@[k].0@ && value_json(pairs@[k].1)
                    == json_view(entries@[k].1),
        decreases entries@.len() - i,
    {
        assert(writable(entries_view(*entries)[i as int].1));
        let key = entries[i].0.clone();
        let item = value_from_json(&entries[i].1);
        pairs.push((key, item));
        i += 1;
    }
    assert(new_pairs_json(pairs) =~= entries_view(*entries));
    pairs
}

/// Calls `serde_json::to_string` on a `serde_json::Value`. The contract
/// names the text; for such a value `serde_json` reports no error.
#[verifier::external_body]
fn value_to_string(value: &Value) -> (text: String)
    requires
        writable(value_json(*value)),
    ensures
        text@ == text_of_json(value_json(*value)),
{
    serde_json::to_string(value).unwrap_or_default()
}

/// Whether no entry from `from` on has the key of the entry at `at`.
fn key_is_last(entries: &Vec<(String, Json)>, at: usize) -> (last: bool)
    requires
        at < entries@.len(),
    ensures
        last == (forall|j: int|
            at < j < entries@.len() ==> entries_view(*entries)[at as int].0 != entries_view(
                *entries,
            )[j].0),
{
    let n = entries.len();
    let mut j: usize = at + 1;
    while j < n
        invariant
            n == entries@.len(),
            at < j <= entries@.len(),
            forall|k: int|
                at < k < j ==> entries_view(*entries)[at as int].0 != entries_view(*entries)[k].0,
        decreases entries@.len() - j,
    {
        if str_eq(entries[at].0.as_str(), entries[j].0.as_str()) {
            assert(entries_view(*entries)[at as int].0 == entries_view(*entries)[j as int].0);
            return false;
        }
        j += 1;
    }
    true
}

/// Whether a JSON value can be handed to `serde_json` as it is.
pub fn is_writable(json: &Json) -> (yes: bool)
    ensures
        yes == writable(json@),
    decreases json,
{
    match json {
        Json::Null => true,
        Json::Bool(_) => true,
        Json::Number(Number::PosInt(_)) => true,
        Json::Number(Number::NegInt(n)) => *n < 0,
        Json::Number(Number::Fraction) => false,
        Json::String(_) => true,
        Json::Array(items) => are_writable(items),
        Json::Object(entries) => are_entries_writable(entries),
    }
}

/// Whether every value of a list can be handed to `serde_json`.
fn are_writable(items: &Vec<Json>) -> (yes: bool)
    ensures
        yes == all_writable(jsons_view(*items)),
    decreases items,
{
    let mut i: usize = 0;
    while i < items.len()
        invariant
            i <= items@.len(),
            forall|k: int| 0 <= k < i ==> writable(jsons_view(*items)[k]),
        decreases items@.len() - i,
    {
        if !is_writable(&items[i]) {
            assert(!writable(jsons_view(*items)[i as int]));
            return false;
        }
        i += 1;
    }
    true
}

/// Whether the entries of an object can be handed to `serde_json`.
fn are_entries_writable(entries: &Vec<(String, Json)>) -> (yes: bool)
    ensures
        yes == (distinct_keys(entries_view(*entries)) && all_values_writable(
            entries_view(*entries),
        )),
    decreases entries,
{
    let mut i: usize = 0;
    while i < entries.len()
        invariant
            i <= entries@.len(),
            forall|k: int| 0 <= k < i ==> writable(entries_view(*entries)[k].1),
            forall|k: int, j: int|
                0 <= k < i && k < j < entries@.len() ==> entries_view(*entries)[k].0
                    != entries_view(*entries)[j].0,
        decreases entries@.len() - i,
    {
        if !key_is_last(entries, i) {
            assert(!distinct_keys(entries_view(*entries)));
            return false;
        }
        if !is_writable(&entries[i].1) {
            assert(!writable(entries_view(*entries)[i as int].1));
            return false;
        }
        i += 1;
    }
    true
}

/// Reads a JSON text as a JSON value; `None` where the text is not JSON.
pub fn json_from_slice(text: &[u8]) -> (json: Option<Json>)
    ensures
        match json {
            Some(j) => json_of_text(text@) == Some(j@),
            None => json_of_text(text@) is None,
        },
{
    match value_from_slice(text) {
        Some(value) => Some(json_from_value(&value)),
        None => None,
    }
}

/// Writes a JSON value as text; `None` where the value cannot be handed on
/// as it is.
pub fn json_to_string(json: &Json) -> (text: Option<String>)
    ensures
        match text {
            Some(t) => writable(json@) && t@ == text_of_json(json@),
            None => !writable(json@),
        },
{
    if is_writable(json) {
        let value = value_from_json(json);
        Some(value_to_string(&value))
    } else {
        None
    }
}

/// What a text describes: the schema that its JSON value describes, and no
/// schema where it is not JSON.
pub open spec fn schema_of_text(text: Seq<u8>) -> Result<SchemaView, SchemaError> {
    match json_of_text(text) {
        Some(json) => parsed_schema(json),
        None => Err(SchemaError::Syntax),
    }
}

/// Reads a schema from JSON text.
pub fn from_slice(text: &[u8]) -> (schema: Result<Schema, SchemaError>)
    ensures
        match schema {
            Ok(s) => schema_of_text(text@) == Ok::<SchemaView, SchemaError>(s@),
            Err(e) => schema_of_text(text@) == Err::<SchemaView, SchemaError>(e),
        },
{
    match json_from_slice(text) {
        Some(json) => parse_schema(&json),
        None => Err(SchemaError::Syntax),
    }
}

/// Reads a schema from JSON text.
pub fn from_str(text: &str) -> (schema: Result<Schema, SchemaError>)
    ensures
        match schema {
            Ok(s) => schema_of_text(encode_utf8(text@)) == Ok::<SchemaView, SchemaError>(s@),
            Err(e) => schema_of_text(encode_utf8(text@)) == Err::<SchemaView, SchemaError>(e),
        },
{
    from_slice(text.as_bytes())
}

/// The JSON text of a schema: what `serde_json` writes for its JSON form.
pub open spec fn schema_text(schema: SchemaView) -> Seq<char> {
    text_of_json(schema_json(schema))
}

/// Writes a schema as JSON text.
pub fn to_string(schema: &Schema) -> (text: String)
    ensures
        text@ == schema_text(schema@),
{
    let json = serialize_schema(schema);
    proof {
        lemma_schema_json_writable(schema@);
    }
    let value = value_from_json(&json);
    value_to_string(&value)
}

} // verus!
