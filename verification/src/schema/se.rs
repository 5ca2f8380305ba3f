//! The JSON form of a schema.
use crate::schema::{
    field_view, fields_view, schema_view, schemas_view, text_option_view, texts_view, BytesLogical,
    Enum, Field, FieldView, Fixed, FixedLogical, Record, Schema, SchemaView, StringLogical,
};
use crate::schema::json::{
    entries_view, json_view, jsons_view, put, size, size_json, text, texts, texts_json, Json,
    JsonView,
};
use crate::schema::names::{
    int_logical_name, int_logical_text, key_name, key_text, long_logical_name, long_logical_text,
    order_name, order_text, Key,
};
use vstd::prelude::*;

verus! {

/// The entries of a JSON object.
pub type Entries = Seq<(Seq<char>, JsonView)>;

/// `entries`, followed by an entry for `key`.
pub open spec fn with(entries: Entries, key: Key, value: JsonView) -> Entries {
    entries.push((key_name(key), value))
}

/// `entries`, followed by an entry for `key` where there is a value.
pub open spec fn with_option(entries: Entries, key: Key, value: Option<JsonView>) -> Entries {
    match value {
        Some(v) => with(entries, key, v),
        None => entries,
    }
}

/// The entry that every object starts with: its type.
pub open spec fn tagged(tag: Seq<char>) -> Entries {
    with(Seq::empty(), Key::Type, JsonView::String(tag))
}

/// The JSON string of an optional text.
pub open spec fn text_option_json(text: Option<Seq<char>>) -> Option<JsonView> {
    match text {
        Some(t) => Some(JsonView::String(t)),
        None => None,
    }
}

/// The JSON array of a list of aliases; an empty list is left out.
pub open spec fn aliases_json(aliases: Seq<Seq<char>>) -> Option<JsonView> {
    if aliases.len() == 0 {
        None
    } else {
        Some(texts_json(aliases))
    }
}

/// The entries that the named types start with: type, name, and where they
/// are present namespace, aliases and doc.
pub open spec fn named(
    tag: Seq<char>,
    name: Seq<char>,
    namespace: Option<Seq<char>>,
    aliases: Seq<Seq<char>>,
    doc: Option<Seq<char>>,
) -> Entries {
    with_option(
        with_option(
            with_option(
                with(tagged(tag), Key::Name, JsonView::String(name)),
                Key::Namespace,
                text_option_json(namespace),
            ),
            Key::Aliases,
            aliases_json(aliases),
        ),
        Key::Doc,
        text_option_json(doc),
    )
}

/// `entries`, followed by those of a decimal; a scale of 0 is left out.
pub open spec fn with_decimal(entries: Entries, precision: usize, scale: usize) -> Entries {
    let decimal = with(
        with(entries, Key::LogicalType, JsonView::String("decimal"@)),
        Key::Precision,
        size_json(precision),
    );
    if scale > 0 {
        with(decimal, Key::Scale, size_json(scale))
    } else {
        decimal
    }
}

/// The JSON form of a schema. A primitive type without a logical type is a
/// string, a union is an array, everything else is an object that starts
/// with its type; what is absent or empty is left out.
pub open spec fn schema_json(schema: SchemaView) -> JsonView
    decreases schema,
{
    match schema {
        SchemaView::Null => JsonView::String("null"@),
        SchemaView::Boolean => JsonView::String("boolean"@),
        SchemaView::Int(None) => JsonView::String("int"@),
        SchemaView::Int(Some(logical)) => JsonView::Object(
            with(tagged("int"@), Key::LogicalType, JsonView::String(int_logical_name(logical))),
        ),
        SchemaView::Long(None) => JsonView::String("long"@),
        SchemaView::Long(Some(logical)) => JsonView::Object(
            with(tagged("long"@), Key::LogicalType, JsonView::String(long_logical_name(logical))),
        ),
        SchemaView::Float => JsonView::String("float"@),
        SchemaView::Double => JsonView::String("double"@),
        SchemaView::Bytes(None) => JsonView::String("bytes"@),
        SchemaView::Bytes(Some(BytesLogical::Decimal(precision, scale))) => JsonView::Object(
            with_decimal(tagged("bytes"@), precision, scale),
        ),
        SchemaView::String(None) => JsonView::String("string"@),
        SchemaView::String(Some(StringLogical::Uuid)) => JsonView::Object(
            with(tagged("string"@), Key::LogicalType, JsonView::String("uuid"@)),
        ),
        SchemaView::Record(record) => JsonView::Object(
            with(
                named("record"@, record.name, record.namespace, record.aliases, record.doc),
                Key::Fields,
                JsonView::Array(fields_json(record.fields)),
            ),
        ),
        SchemaView::Enum(enum_) => JsonView::Object(
            with(
                with_option(
                    named("enum"@, enum_.name, enum_.namespace, enum_.aliases, enum_.doc),
                    Key::Default,
                    text_option_json(enum_.default),
                ),
                Key::Symbols,
                texts_json(enum_.symbols),
            ),
        ),
        SchemaView::Array(item) => JsonView::Object(
            with(tagged("array"@), Key::Items, schema_json(*item)),
        ),
        SchemaView::Mapping(value) => JsonView::Object(
            with(tagged("map"@), Key::Values, schema_json(*value)),
        ),
        SchemaView::Union(members) => JsonView::Array(schemas_json(members)),
        SchemaView::Fixed(fixed) => {
            let sized = with(
                named("fixed"@, fixed.name, fixed.namespace, fixed.aliases, fixed.doc),
                Key::Size,
                size_json(fixed.size),
            );
            JsonView::Object(
                match fixed.logical {
                    None => sized,
                    Some(FixedLogical::Decimal(precision, scale)) => with_decimal(
                        sized,
                        precision,
                        scale,
                    ),
                    Some(FixedLogical::Duration) => with(
                        sized,
                        Key::LogicalType,
                        JsonView::String("duration"@),
                    ),
                },
            )
        },
    }
}

/// The JSON forms of the schemas of a list, in their order.
pub open spec fn schemas_json(schemas: Seq<SchemaView>) -> Seq<JsonView>
    decreases schemas,
{
    Seq::new(
        schemas.len(),
        |i: int|
            if 0 <= i < schemas.len() {
                schema_json(schemas[i])
            } else {
                JsonView::Null
            },
    )
}

/// The JSON form of a field: an object with name, aliases, doc, default,
/// type and order, of which all but name and type are left out where they
/// are absent or empty.
pub open spec fn field_json(field: FieldView) -> JsonView
    decreases field,
{
    JsonView::Object(
        with_option(
            with(
                with_option(
                    with_option(
                        with_option(
                            with(Seq::empty(), Key::Name, JsonView::String(field.name)),
                            Key::Aliases,
                            aliases_json(field.aliases),
                        ),
                        Key::Doc,
                        text_option_json(field.doc),
                    ),
                    Key::Default,
                    match field.default {
                        Some(schema) => Some(schema_json(schema)),
                        None => None,
                    },
                ),
                Key::Type,
                schema_json(field.schema),
            ),
            Key::Order,
            match field.order {
                Some(order) => Some(JsonView::String(order_name(order))),
                None => None,
            },
        ),
    )
}

/// The JSON forms of the fields of a list, in their order.
pub open spec fn fields_json(fields: Seq<FieldView>) -> Seq<JsonView>
    decreases fields,
{
    Seq::new(
        fields.len(),
        |i: int|
            if 0 <= i < fields.len() {
                field_json(fields[i])
            } else {
                JsonView::Null
            },
    )
}

/// The entries that hold only the type.
fn start(tag: &str) -> (entries: Vec<(String, Json)>)
    ensures
        entries_view(entries) == tagged(tag@),
{
    let mut entries: Vec<(String, Json)> = Vec::new();
    assert(entries_view(entries) =~= Seq::empty());
    put(&mut entries, key_text(Key::Type), text(tag));
    entries
}

/// Appends an entry for an optional text where it is present.
fn put_text_option(entries: &mut Vec<(String, Json)>, key: Key, value: &Option<String>)
    ensures
        entries_view(*final(entries)) == with_option(
            entries_view(*old(entries)),
            key,
            text_option_json(text_option_view(*value)),
        ),
{
    if let Some(t) = value {
        put(entries, key_text(key), text(t.as_str()));
    }
}

/// Appends an entry for the aliases where there are any.
fn put_aliases(entries: &mut Vec<(String, Json)>, aliases: &Vec<String>)
    ensures
        entries_view(*final(entries)) == with_option(
            entries_view(*old(entries)),
            Key::Aliases,
            aliases_json(texts_view(*aliases)),
        ),
{
    if aliases.len() != 0 {
        put(entries, key_text(Key::Aliases), texts(aliases));
    }
}

/// The entries that a named type starts with.
fn start_named(
    tag: &str,
    name: &String,
    namespace: &Option<String>,
    aliases: &Vec<String>,
    doc: &Option<String>,
) -> (entries: Vec<(String, Json)>)
    ensures
        entries_view(entries) == named(
            tag@,
            name@,
            text_option_view(*namespace),
            texts_view(*aliases),
            text_option_view(*doc),
        ),
{
    let mut entries = start(tag);
    put(&mut entries, key_text(Key::Name), text(name.as_str()));
    put_text_option(&mut entries, Key::Namespace, namespace);
    put_aliases(&mut entries, aliases);
    put_text_option(&mut entries, Key::Doc, doc);
    entries
}

/// Appends the entries of a decimal.
fn put_decimal(entries: &mut Vec<(String, Json)>, precision: usize, scale: usize)
    ensures
        entries_view(*final(entries)) == with_decimal(
            entries_view(*old(entries)),
            precision,
            scale,
        ),
{
    put(entries, key_text(Key::LogicalType), text("decimal"));
    put(entries, key_text(Key::Precision), size(precision));
    if scale > 0 {
        put(entries, key_text(Key::Scale), size(scale));
    }
}

/// Writes a schema as a JSON value.
pub fn serialize_schema(schema: &Schema) -> (json: Json)
    ensures
        json@ == schema_json(schema@),
    decreases schema,
{
    match schema {
        Schema::Null => text("null"),
        Schema::Boolean => text("boolean"),
        Schema::Int(logical) => match logical {
            None => text("int"),
            Some(logical) => {
                let mut map = start("int");
                put(&mut map, key_text(Key::LogicalType), text(int_logical_text(*logical)));
                Json::Object(map)
            },
        },
        Schema::Long(logical) => match logical {
            None => text("long"),
            Some(logical) => {
                let mut map = start("long");
                put(&mut map, key_text(Key::LogicalType), text(long_logical_text(*logical)));
                Json::Object(map)
            },
        },
        Schema::Float => text("float"),
        Schema::Double => text("double"),
        Schema::Bytes(logical) => match logical {
            None => text("bytes"),
            Some(BytesLogical::Decimal(precision, scale)) => {
                let mut map = start("bytes");
                put_decimal(&mut map, *precision, *scale);
                Json::Object(map)
            },
        },
        Schema::String(logical) => match logical {
            None => text("string"),
            Some(StringLogical::Uuid) => {
                let mut map = start("string");
                put(&mut map, key_text(Key::LogicalType), text("uuid"));
                Json::Object(map)
            },
        },
        Schema::Record(record) => serialize_record(record),
        Schema::Enum(enum_) => serialize_enum(enum_),
        Schema::Array(item) => {
            let mut map = start("array");
            put(&mut map, key_text(Key::Items), serialize_schema(item));
            Json::Object(map)
        },
        Schema::Mapping(value) => {
            let mut map = start("map");
            put(&mut map, key_text(Key::Values), serialize_schema(value));
            Json::Object(map)
        },
        Schema::Union(schemas) => Json::Array(serialize_schemas(schemas)),
        Schema::Fixed(fixed) => serialize_fixed(fixed),
    }
}

/// Writes the schemas of a list as JSON values, in their order.
pub fn serialize_schemas(schemas: &Vec<Schema>) -> (seq: Vec<Json>)
    ensures
        jsons_view(seq) == schemas_json(schemas_view(*schemas)),
    decreases schemas,
{
    let mut seq: Vec<Json> = Vec::new();
    let mut i: usize = 0;
    while i < schemas.len()
        invariant
            i <= schemas@.len(),
            seq@.len() == i,
            forall|k: int|
                0 <= k < i ==> json_view(seq@[k]) == schema_json(schema_view(schemas@[k])),
        decreases schemas@.len() - i,
    {
        seq.push(serialize_schema(&schemas[i]));
        i += 1;
    }
    assert(jsons_view(seq) =~= schemas_json(schemas_view(*schemas)));
    seq
}

/// Writes a record as a JSON value.
pub fn serialize_record(record: &Record) -> (json: Json)
    ensures
        json@ == schema_json(SchemaView::Record(record@)),
    decreases record,
{
    let mut map = start_named(
        "record",
        &record.name,
        &record.namespace,
        &record.aliases,
        &record.doc,
    );
    let mut fields: Vec<Json> = Vec::new();
    let mut i: usize = 0;
    while i < record.fields.len()
        invariant
            i <= record.fields@.len(),
            fields@.len() == i,
            forall|k: int|
                0 <= k < i ==> json_view(fields@[k]) == field_json(field_view(record.fields@[k])),
        decreases record.fields@.len() - i,
    {
        fields.push(serialize_field(&record.fields[i]));
        i += 1;
    }
    assert(jsons_view(fields) =~= fields_json(fields_view(record.fields)));
    put(&mut map, key_text(Key::Fields), Json::Array(fields));
    Json::Object(map)
}

/// Writes an enum as a JSON value.
pub fn serialize_enum(enum_: &Enum) -> (json: Json)
    ensures
        json@ == schema_json(SchemaView::Enum(enum_@)),
{
    let mut map = start_named("enum", &enum_.name, &enum_.namespace, &enum_.aliases, &enum_.doc);
    put_text_option(&mut map, Key::Default, &enum_.default);
    put(&mut map, key_text(Key::Symbols), texts(&enum_.symbols));
    Json::Object(map)
}

/// Writes a fixed as a JSON value.
pub fn serialize_fixed(fixed: &Fixed) -> (json: Json)
    ensures
        json@ == schema_json(SchemaView::Fixed(fixed@)),
{
    let mut map = start_named("fixed", &fixed.name, &fixed.namespace, &fixed.aliases, &fixed.doc);
    put(&mut map, key_text(Key::Size), size(fixed.size));
    if let Some(logical) = &fixed.logical {
        match logical {
            FixedLogical::Decimal(precision, scale) => {
                put_decimal(&mut map, *precision, *scale);
            },
            FixedLogical::Duration => {
                put(&mut map, key_text(Key::LogicalType), text("duration"));
            },
        }
    }
    Json::Object(map)
}

/// Writes a field as a JSON value.
pub fn serialize_field(field: &Field) -> (json: Json)
    ensures
        json@ == field_json(field@),
    decreases field,
{
    let mut map: Vec<(String, Json)> = Vec::new();
    assert(entries_view(map) =~= Seq::empty());
    put(&mut map, key_text(Key::Name), text(field.name.as_str()));
    put_aliases(&mut map, &field.aliases);
    put_text_option(&mut map, Key::Doc, &field.doc);
    if let Some(default) = &field.default {
        put(&mut map, key_text(Key::Default), serialize_schema(default));
    }
    put(&mut map, key_text(Key::Type), serialize_schema(&field.schema));
    if let Some(order) = &field.order {
        put(&mut map, key_text(Key::Order), text(order_text(*order)));
    }
    Json::Object(map)
}

} // verus!
