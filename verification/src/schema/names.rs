//! The words of the schema language: keys, type names, logical type names.
use crate::schema::{IntLogical, LongLogical, Order, Schema, SchemaView};
use crate::schema::json::str_eq;
use vstd::prelude::*;

verus! {

/// A key of a JSON object that describes a schema or a field.
#[derive(Debug, Clone, Copy, PartialEq, Eq, Structural, Hash)]
pub enum Key {
    /// `type`
    Type,
    /// `name`
    Name,
    /// `namespace`
    Namespace,
    /// `doc`
    Doc,
    /// `aliases`
    Aliases,
    /// `symbols`
    Symbols,
    /// `default`
    Default,
    /// `values`
    Values,
    /// `items`
    Items,
    /// `fields`
    Fields,
    /// `size`
    Size,
    /// `logicalType`
    LogicalType,
    /// `precision`
    Precision,
    /// `scale`
    Scale,
    /// `order`
    Order,
}

/// The key as it is written.
pub open spec fn key_name(key: Key) -> Seq<char> {
    match key {
        Key::Type => "type"@,
        Key::Name => "name"@,
        Key::Namespace => "namespace"@,
        Key::Doc => "doc"@,
        Key::Aliases => "aliases"@,
        Key::Symbols => "symbols"@,
        Key::Default => "default"@,
        Key::Values => "values"@,
        Key::Items => "items"@,
        Key::Fields => "fields"@,
        Key::Size => "size"@,
        Key::LogicalType => "logicalType"@,
        Key::Precision => "precision"@,
        Key::Scale => "scale"@,
        Key::Order => "order"@,
    }
}

/// The key as it is written.
pub fn key_text(key: Key) -> (text: &'static str)
    ensures
        text@ == key_name(key),
{
    match key {
        Key::Type => "type",
        Key::Name => "name",
        Key::Namespace => "namespace",
        Key::Doc => "doc",
        Key::Aliases => "aliases",
        Key::Symbols => "symbols",
        Key::Default => "default",
        Key::Values => "values",
        Key::Items => "items",
        Key::Fields => "fields",
        Key::Size => "size",
        Key::LogicalType => "logicalType",
        Key::Precision => "precision",
        Key::Scale => "scale",
        Key::Order => "order",
    }
}

/// The primitive type that `name` names, if it names one.
pub open spec fn primitive(name: Seq<char>) -> Option<SchemaView> {
    if name == "null"@ {
        Some(SchemaView::Null)
    } else if name == "boolean"@ {
        Some(SchemaView::Boolean)
    } else if name == "bytes"@ {
        Some(SchemaView::Bytes(None))
    } else if name == "string"@ {
        Some(SchemaView::String(None))
    } else if name == "int"@ {
        Some(SchemaView::Int(None))
    } else if name == "long"@ {
        Some(SchemaView::Long(None))
    } else if name == "float"@ {
        Some(SchemaView::Float)
    } else if name == "double"@ {
        Some(SchemaView::Double)
    } else {
        None
    }
}

/// The primitive type that `v` names, if it names one.
pub fn to_primitive(v: &str) -> (schema: Option<Schema>)
    ensures
        match schema {
            Some(s) => primitive(v@) == Some(s@),
            None => primitive(v@) is None,
        },
{
    if str_eq(v, "null") {
        Some(Schema::Null)
    } else if str_eq(v, "boolean") {
        Some(Schema::Boolean)
    } else if str_eq(v, "bytes") {
        Some(Schema::Bytes(None))
    } else if str_eq(v, "string") {
        Some(Schema::String(None))
    } else if str_eq(v, "int") {
        Some(Schema::Int(None))
    } else if str_eq(v, "long") {
        Some(Schema::Long(None))
    } else if str_eq(v, "float") {
        Some(Schema::Float)
    } else if str_eq(v, "double") {
        Some(Schema::Double)
    } else {
        None
    }
}

/// The name of a logical type of `int`.
pub open spec fn int_logical_name(logical: IntLogical) -> Seq<char> {
    match logical {
        IntLogical::Date => "date"@,
        IntLogical::Time => "time-millis"@,
    }
}

/// The name of a logical type of `int`.
pub fn int_logical_text(logical: IntLogical) -> (text: &'static str)
    ensures
        text@ == int_logical_name(logical),
{
    match logical {
        IntLogical::Date => "date",
        IntLogical::Time => "time-millis",
    }
}

/// The logical type of `int` that `name` names, if it names one.
pub open spec fn int_logical(name: Seq<char>) -> Option<IntLogical> {
    if name == "date"@ {
        Some(IntLogical::Date)
    } else if name == "time-millis"@ {
        Some(IntLogical::Time)
    } else {
        None
    }
}

/// The logical type of `int` that `name` names, if it names one.
pub fn to_int_logical(name: &str) -> (logical: Option<IntLogical>)
    ensures
        logical == int_logical(name@),
{
    if str_eq(name, "date") {
        Some(IntLogical::Date)
    } else if str_eq(name, "time-millis") {
        Some(IntLogical::Time)
    } else {
        None
    }
}

/// The name of a logical type of `long`.
pub open spec fn long_logical_name(logical: LongLogical) -> Seq<char> {
    match logical {
        LongLogical::Time => "time-micros"@,
        LongLogical::TimestampMillis => "timestamp-millis"@,
        LongLogical::TimestampMicros => "timestamp-micros"@,
        LongLogical::LocalTimestampMillis => "local-timestamp-millis"@,
        LongLogical::LocalTimestampMicros => "local-timestamp-micros"@,
    }
}

/// The name of a logical type of `long`.
pub fn long_logical_text(logical: LongLogical) -> (text: &'static str)
    ensures
        text@ == long_logical_name(logical),
{
    match logical {
        LongLogical::Time => "time-micros",
        LongLogical::TimestampMillis => "timestamp-millis",
        LongLogical::TimestampMicros => "timestamp-micros",
        LongLogical::LocalTimestampMillis => "local-timestamp-millis",
        LongLogical::LocalTimestampMicros => "local-timestamp-micros",
    }
}

/// The logical type of `long` that `name` names, if it names one.
pub open spec fn long_logical(name: Seq<char>) -> Option<LongLogical> {
    if name == "time-micros"@ {
        Some(LongLogical::Time)
    } else if name == "timestamp-millis"@ {
        Some(LongLogical::TimestampMillis)
    } else if name == "timestamp-micros"@ {
        Some(LongLogical::TimestampMicros)
    } else if name == "local-timestamp-millis"@ {
        Some(LongLogical::LocalTimestampMillis)
    } else if name == "local-timestamp-micros"@ {
        Some(LongLogical::LocalTimestampMicros)
    } else {
        None
    }
}

/// The logical type of `long` that `name` names, if it names one.
pub fn to_long_logical(name: &str) -> (logical: Option<LongLogical>)
    ensures
        logical == long_logical(name@),
{
    if str_eq(name, "time-micros") {
        Some(LongLogical::Time)
    } else if str_eq(name, "timestamp-millis") {
        Some(LongLogical::TimestampMillis)
    } else if str_eq(name, "timestamp-micros") {
        Some(LongLogical::TimestampMicros)
    } else if str_eq(name, "local-timestamp-millis") {
        Some(LongLogical::LocalTimestampMillis)
    } else if str_eq(name, "local-timestamp-micros") {
        Some(LongLogical::LocalTimestampMicros)
    } else {
        None
    }
}

/// The name of an order.
pub open spec fn order_name(order: Order) -> Seq<char> {
    match order {
        Order::Ascending => "ascending"@,
        Order::Descending => "descending"@,
        Order::Ignore => "ignore"@,
    }
}

/// The name of an order.
pub fn order_text(order: Order) -> (text: &'static str)
    ensures
        text@ == order_name(order),
{
    match order {
        Order::Ascending => "ascending",
        Order::Descending => "descending",
        Order::Ignore => "ignore",
    }
}

/// The order that `name` names, if it names one.
pub open spec fn order_named(name: Seq<char>) -> Option<Order> {
    if name == "ascending"@ {
        Some(Order::Ascending)
    } else if name == "descending"@ {
        Some(Order::Descending)
    } else if name == "ignore"@ {
        Some(Order::Ignore)
    } else {
        None
    }
}

/// The order that `name` names, if it names one.
pub fn to_order_named(name: &str) -> (order: Option<Order>)
    ensures
        order == order_named(name@),
{
    if str_eq(name, "ascending") {
        Some(Order::Ascending)
    } else if str_eq(name, "descending") {
        Some(Order::Descending)
    } else if str_eq(name, "ignore") {
        Some(Order::Ignore)
    } else {
        None
    }
}

/// No two keys are written alike.
pub proof fn lemma_key_names_differ(a: Key, b: Key)
    ensures
        key_name(a) == key_name(b) <==> a == b,
{
    reveal_strlit("type");
    reveal_strlit("name");
    reveal_strlit("namespace");
    reveal_strlit("doc");
    reveal_strlit("aliases");
    reveal_strlit("symbols");
    reveal_strlit("default");
    reveal_strlit("values");
    reveal_strlit("items");
    reveal_strlit("fields");
    reveal_strlit("size");
    reveal_strlit("logicalType");
    reveal_strlit("precision");
    reveal_strlit("scale");
    reveal_strlit("order");
    if a != b && key_name(a) == key_name(b) {
        assert(key_name(a).len() == key_name(b).len());
        assert(key_name(a)[0] == key_name(b)[0]);
    }
}

/// Each name of a primitive type names that type, and the names of the
/// complex types name none.
pub proof fn lemma_primitive_names()
    ensures
        primitive("null"@) == Some(SchemaView::Null),
        primitive("boolean"@) == Some(SchemaView::Boolean),
        primitive("bytes"@) == Some(SchemaView::Bytes(None)),
        primitive("string"@) == Some(SchemaView::String(None)),
        primitive("int"@) == Some(SchemaView::Int(None)),
        primitive("long"@) == Some(SchemaView::Long(None)),
        primitive("float"@) == Some(SchemaView::Float),
        primitive("double"@) == Some(SchemaView::Double),
        primitive("enum"@) is None,
        primitive("map"@) is None,
        primitive("array"@) is None,
        primitive("record"@) is None,
        primitive("fixed"@) is None,
        "enum"@ != "map"@ && "enum"@ != "array"@ && "enum"@ != "record"@ && "enum"@ != "fixed"@,
        "map"@ != "array"@ && "map"@ != "record"@ && "map"@ != "fixed"@,
        "array"@ != "record"@ && "array"@ != "fixed"@,
        "record"@ != "fixed"@,
        "string"@ != "int"@ && "string"@ != "long"@ && "string"@ != "bytes"@,
        "int"@ != "long"@ && "int"@ != "bytes"@,
        "long"@ != "bytes"@,
{
    reveal_strlit("null");
    reveal_strlit("boolean");
    reveal_strlit("bytes");
    reveal_strlit("string");
    reveal_strlit("int");
    reveal_strlit("long");
    reveal_strlit("float");
    reveal_strlit("double");
    reveal_strlit("enum");
    reveal_strlit("map");
    reveal_strlit("array");
    reveal_strlit("record");
    reveal_strlit("fixed");
    assert("null"@.len() == 4 && "long"@.len() == 4 && "enum"@.len() == 4);
    assert("int"@.len() == 3 && "map"@.len() == 3);
    assert("bytes"@.len() == 5 && "float"@.len() == 5 && "array"@.len() == 5 && "fixed"@.len()
        == 5);
    assert("string"@.len() == 6 && "double"@.len() == 6 && "record"@.len() == 6);
    assert("boolean"@.len() == 7);
    assert("bytes"@[0] != "float"@[0] && "bytes"@[0] != "array"@[0] && "bytes"@[0] != "fixed"@[0]);
    assert("float"@[0] != "array"@[0]);
    assert("fixed"@[1] != "float"@[1] && "array"@[0] != "fixed"@[0]);
    assert("null"@[0] != "long"@[0] && "null"@[0] != "enum"@[0] && "long"@[0] != "enum"@[0]);
    assert("string"@[0] != "double"@[0] && "string"@[0] != "record"@[0] && "double"@[0]
        != "record"@[0]);
    assert("int"@[0] != "map"@[0]);
}

/// Each name of a logical type of `int` names that type.
pub proof fn lemma_int_logical_names(logical: IntLogical)
    ensures
        int_logical(int_logical_name(logical)) == Some(logical),
{
    reveal_strlit("date");
    reveal_strlit("time-millis");
    assert("date"@.len() == 4 && "time-millis"@.len() == 11);
}

/// Each name of a logical type of `long` names that type.
pub proof fn lemma_long_logical_names(logical: LongLogical)
    ensures
        long_logical(long_logical_name(logical)) == Some(logical),
{
    reveal_strlit("time-micros");
    reveal_strlit("timestamp-millis");
    reveal_strlit("timestamp-micros");
    reveal_strlit("local-timestamp-millis");
    reveal_strlit("local-timestamp-micros");
    assert("time-micros"@.len() == 11);
    assert("timestamp-millis"@.len() == 16 && "timestamp-micros"@.len() == 16);
    assert("local-timestamp-millis"@.len() == 22 && "local-timestamp-micros"@.len() == 22);
    assert("timestamp-millis"@[12] != "timestamp-micros"@[12]);
    assert("local-timestamp-millis"@[18] != "local-timestamp-micros"@[18]);
}

/// Each name of an order names that order.
pub proof fn lemma_order_names(order: Order)
    ensures
        order_named(order_name(order)) == Some(order),
{
    reveal_strlit("ascending");
    reveal_strlit("descending");
    reveal_strlit("ignore");
    assert("ascending"@.len() == 9 && "descending"@.len() == 10 && "ignore"@.len() == 6);
}

} // verus!
