//! What holds of writing a schema as JSON and reading it back.
use crate::schema::{
    BytesLogical, EnumView, FieldView, FixedLogical, FixedView, IntLogical, LongLogical, RecordView,
    SchemaView, StringLogical,
};
use crate::schema::de::{
    aliases_at, all_strings, at, decimal_at, enum_at, fixed_at, fixed_logical_at, logical_at,
    named_at, parsed_field, parsed_fields, parsed_schema, parsed_schemas, record_at,
    required_schema_at, size_at, string_at, strings_at, strings_of, type_at, Named, SchemaError,
};
use crate::schema::json::{index_of_last, lemma_index_of_last, size_json, texts_json, JsonView};
use crate::schema::names::{
    int_logical, int_logical_name, key_name, lemma_int_logical_names, lemma_key_names_differ,
    lemma_long_logical_names, lemma_order_names, lemma_primitive_names, long_logical,
    long_logical_name, order_name, primitive, Key,
};
use crate::schema::se::{
    aliases_json, field_json, fields_json, named, schema_json, schemas_json, tagged,
    text_option_json, with, with_decimal, with_option, Entries,
};
use crate::schema::text::{all_values_writable, all_writable, distinct_keys, writable};
use vstd::prelude::*;

verus! {

/// Where two lists of entries agree on their first `n` entries, the last
/// entry with a key among these is at the same place.
proof fn lemma_index_of_last_agrees(a: Entries, b: Entries, key: Seq<char>, n: nat)
    requires
        n <= a.len(),
        n <= b.len(),
        forall|i: int| 0 <= i < n ==> a[i] == b[i],
    ensures
        index_of_last(a, key, n) == index_of_last(b, key, n),
        -1 <= index_of_last(a, key, n) < n,
    decreases n,
{
    if n > 0 {
        lemma_index_of_last_agrees(a, b, key, (n - 1) as nat);
    }
}

/// An object without entries holds nothing.
pub proof fn lemma_at_empty(key: Key)
    ensures
        at(Seq::empty(), key) is None,
{
}

/// After an entry for `k`, an object holds that entry's value under `k` and
/// under every other key what it held before.
pub proof fn lemma_at_with(entries: Entries, k: Key, v: JsonView)
    ensures
        forall|key: Key|
            #[trigger] at(with(entries, k, v), key) == if key == k {
                Some(v)
            } else {
                at(entries, key)
            },
{
    assert forall|key: Key|
        #[trigger] at(with(entries, k, v), key) == if key == k {
            Some(v)
        } else {
            at(entries, key)
        } by {
        let after = with(entries, k, v);
        let n = entries.len();
        lemma_key_names_differ(key, k);
        if key != k {
            lemma_index_of_last_agrees(after, entries, key_name(key), n);
        }
    }
}

/// After an optional entry for `k`, an object holds its value under `k`
/// where there is one, and under every other key what it held before.
pub proof fn lemma_at_with_option(entries: Entries, k: Key, v: Option<JsonView>)
    ensures
        forall|key: Key|
            #[trigger] at(with_option(entries, k, v), key) == if key == k && v is Some {
                v
            } else {
                at(entries, key)
            },
{
    if v is Some {
        lemma_at_with(entries, k, v->Some_0);
    }
}

/// What an object that starts as the named types do holds under each key.
pub proof fn lemma_at_named(
    tag: Seq<char>,
    name: Seq<char>,
    namespace: Option<Seq<char>>,
    aliases: Seq<Seq<char>>,
    doc: Option<Seq<char>>,
)
    ensures
        forall|key: Key|
            #[trigger] at(named(tag, name, namespace, aliases, doc), key) == match key {
                Key::Type => Some(JsonView::String(tag)),
                Key::Name => Some(JsonView::String(name)),
                Key::Namespace => text_option_json(namespace),
                Key::Aliases => aliases_json(aliases),
                Key::Doc => text_option_json(doc),
                _ => None,
            },
{
    let a = tagged(tag);
    let b = with(a, Key::Name, JsonView::String(name));
    let c = with_option(b, Key::Namespace, text_option_json(namespace));
    let d = with_option(c, Key::Aliases, aliases_json(aliases));
    lemma_at_with(Seq::empty(), Key::Type, JsonView::String(tag));
    lemma_at_with(a, Key::Name, JsonView::String(name));
    lemma_at_with_option(b, Key::Namespace, text_option_json(namespace));
    lemma_at_with_option(c, Key::Aliases, aliases_json(aliases));
    lemma_at_with_option(d, Key::Doc, text_option_json(doc));
    assert forall|key: Key|
        #[trigger] at(named(tag, name, namespace, aliases, doc), key) == match key {
            Key::Type => Some(JsonView::String(tag)),
            Key::Name => Some(JsonView::String(name)),
            Key::Namespace => text_option_json(namespace),
            Key::Aliases => aliases_json(aliases),
            Key::Doc => text_option_json(doc),
            _ => None,
        } by {
        lemma_at_empty(key);
        assert(at(a, key) == if key == Key::Type {
            Some(JsonView::String(tag))
        } else {
            None
        });
    }
}

/// What the entries of a decimal add to an object.
pub proof fn lemma_at_with_decimal(entries: Entries, precision: usize, scale: usize)
    ensures
        forall|key: Key|
            #[trigger] at(with_decimal(entries, precision, scale), key) == match key {
                Key::LogicalType => Some(JsonView::String("decimal"@)),
                Key::Precision => Some(size_json(precision)),
                Key::Scale => if scale > 0 {
                    Some(size_json(scale))
                } else {
                    at(entries, key)
                },
                _ => at(entries, key),
            },
{
    let a = with(entries, Key::LogicalType, JsonView::String("decimal"@));
    let b = with(a, Key::Precision, size_json(precision));
    lemma_at_with(entries, Key::LogicalType, JsonView::String("decimal"@));
    lemma_at_with(a, Key::Precision, size_json(precision));
    if scale > 0 {
        lemma_at_with(b, Key::Scale, size_json(scale));
    }
}

/// A list of aliases that was written is read back as it was.
pub proof fn lemma_aliases_round_trip(entries: Entries, aliases: Seq<Seq<char>>)
    requires
        at(entries, Key::Aliases) == aliases_json(aliases),
    ensures
        aliases_at(entries) == Ok::<Seq<Seq<char>>, SchemaError>(aliases),
{
    if aliases.len() == 0 {
        assert(aliases =~= Seq::empty());
    } else {
        lemma_texts_round_trip(aliases);
    }
}

/// A list of strings holds strings only, and their texts are those of the
/// list that it was made of.
pub proof fn lemma_texts_round_trip(texts: Seq<Seq<char>>)
    ensures
        all_strings(texts_json(texts)->Array_0),
        strings_of(texts_json(texts)->Array_0) == texts,
{
    assert(strings_of(texts_json(texts)->Array_0) =~= texts);
}

/// A logical type that a primitive type does not have is passed over: the
/// object describes the primitive type without a logical type.
pub proof fn lemma_unknown_logical_type(entries: Entries, name: Seq<char>, logical: Seq<char>)
    requires
        type_at(entries) == Ok::<Seq<char>, SchemaError>(name),
        primitive(name) is Some,
        at(entries, Key::LogicalType) == Some(JsonView::String(logical)),
        name == "string"@ ==> logical != "uuid"@,
        name == "int"@ ==> int_logical(logical) is None,
        name == "long"@ ==> long_logical(logical) is None,
        name == "bytes"@ ==> logical != "decimal"@,
    ensures
        parsed_schema(JsonView::Object(entries)) == Ok::<SchemaView, SchemaError>(
            primitive(name)->Some_0,
        ),
{
}

/// A primitive type without a logical type is read back from its name.
proof fn lemma_plain_round_trip(schema: SchemaView)
    requires
        schema is Null || schema is Boolean || schema is Float || schema is Double || schema
            == SchemaView::Int(None) || schema == SchemaView::Long(None) || schema
            == SchemaView::Bytes(None) || schema == SchemaView::String(None),
    ensures
        parsed_schema(schema_json(schema)) == Ok::<SchemaView, SchemaError>(schema),
{
    lemma_primitive_names();
}

/// An `int` with a logical type is read back.
proof fn lemma_int_round_trip(logical: IntLogical)
    ensures
        parsed_schema(schema_json(SchemaView::Int(Some(logical)))) == Ok::<
            SchemaView,
            SchemaError,
        >(SchemaView::Int(Some(logical))),
{
    lemma_primitive_names();
    lemma_int_logical_names(logical);
    lemma_at_with(Seq::empty(), Key::Type, JsonView::String("int"@));
    lemma_at_with(
        tagged("int"@),
        Key::LogicalType,
        JsonView::String(int_logical_name(logical)),
    );
}

/// A `long` with a logical type is read back.
proof fn lemma_long_round_trip(logical: LongLogical)
    ensures
        parsed_schema(schema_json(SchemaView::Long(Some(logical)))) == Ok::<
            SchemaView,
            SchemaError,
        >(SchemaView::Long(Some(logical))),
{
    lemma_primitive_names();
    lemma_long_logical_names(logical);
    lemma_at_with(Seq::empty(), Key::Type, JsonView::String("long"@));
    lemma_at_with(
        tagged("long"@),
        Key::LogicalType,
        JsonView::String(long_logical_name(logical)),
    );
}

/// A decimal as it is written is read back with its precision and scale.
proof fn lemma_decimal_round_trip(entries: Entries, precision: usize, scale: usize)
    requires
        at(entries, Key::Scale) is None,
    ensures
        logical_at(with_decimal(entries, precision, scale)) == Ok::<
            Seq<char>,
            SchemaError,
        >("decimal"@),
        decimal_at(with_decimal(entries, precision, scale)) == Ok::<
            (usize, usize),
            SchemaError,
        >((precision, scale)),
{
    lemma_at_with_decimal(entries, precision, scale);
}

/// `bytes` with a decimal is read back.
proof fn lemma_bytes_round_trip(precision: usize, scale: usize)
    ensures
        parsed_schema(schema_json(SchemaView::Bytes(Some(BytesLogical::Decimal(precision, scale)))))
            == Ok::<SchemaView, SchemaError>(
            SchemaView::Bytes(Some(BytesLogical::Decimal(precision, scale))),
        ),
{
    lemma_primitive_names();
    lemma_at_with(Seq::empty(), Key::Type, JsonView::String("bytes"@));
    lemma_at_with_decimal(tagged("bytes"@), precision, scale);
    lemma_at_empty(Key::Scale);
    lemma_decimal_round_trip(tagged("bytes"@), precision, scale);
}

/// A `string` that is a UUID is read back.
proof fn lemma_uuid_round_trip()
    ensures
        parsed_schema(schema_json(SchemaView::String(Some(StringLogical::Uuid)))) == Ok::<
            SchemaView,
            SchemaError,
        >(SchemaView::String(Some(StringLogical::Uuid))),
{
    lemma_primitive_names();
    lemma_at_with(Seq::empty(), Key::Type, JsonView::String("string"@));
    lemma_at_with(tagged("string"@), Key::LogicalType, JsonView::String("uuid"@));
}

/// What the named types have in common is read back.
proof fn lemma_named_round_trip(
    entries: Entries,
    name: Seq<char>,
    namespace: Option<Seq<char>>,
    aliases: Seq<Seq<char>>,
    doc: Option<Seq<char>>,
)
    requires
        at(entries, Key::Name) == Some(JsonView::String(name)),
        at(entries, Key::Namespace) == text_option_json(namespace),
        at(entries, Key::Aliases) == aliases_json(aliases),
        at(entries, Key::Doc) == text_option_json(doc),
    ensures
        named_at(entries) == Ok::<Named, SchemaError>(
            Named { name, namespace, aliases, doc },
        ),
{
    lemma_aliases_round_trip(entries, aliases);
}

/// A record is read back where its fields are.
proof fn lemma_record_round_trip(record: RecordView)
    requires
        parsed_fields(fields_json(record.fields), record.fields.len()) == Ok::<
            Seq<FieldView>,
            SchemaError,
        >(record.fields),
    ensures
        parsed_schema(schema_json(SchemaView::Record(record))) == Ok::<SchemaView, SchemaError>(
            SchemaView::Record(record),
        ),
{
    lemma_primitive_names();
    let start = named("record"@, record.name, record.namespace, record.aliases, record.doc);
    let entries = with(start, Key::Fields, JsonView::Array(fields_json(record.fields)));
    lemma_at_named("record"@, record.name, record.namespace, record.aliases, record.doc);
    lemma_at_with(start, Key::Fields, JsonView::Array(fields_json(record.fields)));
    lemma_named_round_trip(entries, record.name, record.namespace, record.aliases, record.doc);
    assert(fields_json(record.fields).len() == record.fields.len());
    assert(type_at(entries) == Ok::<Seq<char>, SchemaError>("record"@));
    assert(record_at(entries) == Ok::<RecordView, SchemaError>(
        record,
    ));
    assert(schema_json(SchemaView::Record(record)) == JsonView::Object(entries));
}

/// An enum is read back.
proof fn lemma_enum_round_trip(enum_: EnumView)
    ensures
        parsed_schema(schema_json(SchemaView::Enum(enum_))) == Ok::<SchemaView, SchemaError>(
            SchemaView::Enum(enum_),
        ),
{
    lemma_primitive_names();
    let start = named("enum"@, enum_.name, enum_.namespace, enum_.aliases, enum_.doc);
    let middle = with_option(start, Key::Default, text_option_json(enum_.default));
    let entries = with(middle, Key::Symbols, texts_json(enum_.symbols));
    lemma_at_named("enum"@, enum_.name, enum_.namespace, enum_.aliases, enum_.doc);
    lemma_at_with_option(start, Key::Default, text_option_json(enum_.default));
    lemma_at_with(middle, Key::Symbols, texts_json(enum_.symbols));
    lemma_named_round_trip(entries, enum_.name, enum_.namespace, enum_.aliases, enum_.doc);
    lemma_texts_round_trip(enum_.symbols);
    assert(type_at(entries) == Ok::<Seq<char>, SchemaError>("enum"@));
    assert(string_at(entries, Key::Default) == Ok::<
        Option<Seq<char>>,
        SchemaError,
    >(enum_.default));
    assert(strings_at(entries, Key::Symbols) == Ok::<Option<Seq<Seq<char>>>, SchemaError>(
        Some(enum_.symbols),
    ));
    assert(enum_at(entries) == Ok::<EnumView, SchemaError>(
        enum_,
    ));
    assert(schema_json(SchemaView::Enum(enum_)) == JsonView::Object(entries));
}

/// An array is read back where its items are.
proof fn lemma_array_round_trip(item: SchemaView)
    requires
        parsed_schema(schema_json(item)) == Ok::<SchemaView, SchemaError>(item),
    ensures
        parsed_schema(schema_json(SchemaView::Array(Box::new(item)))) == Ok::<
            SchemaView,
            SchemaError,
        >(SchemaView::Array(Box::new(item))),
{
    lemma_primitive_names();
    let entries = with(tagged("array"@), Key::Items, schema_json(item));
    lemma_at_with(Seq::empty(), Key::Type, JsonView::String("array"@));
    lemma_at_with(tagged("array"@), Key::Items, schema_json(item));
    assert(type_at(entries) == Ok::<Seq<char>, SchemaError>("array"@));
    assert(required_schema_at(entries, Key::Items) == Ok::<
        SchemaView,
        SchemaError,
    >(item));
    assert(schema_json(SchemaView::Array(Box::new(item))) == JsonView::Object(entries));
}

/// A map is read back where its values are.
proof fn lemma_mapping_round_trip(value: SchemaView)
    requires
        parsed_schema(schema_json(value)) == Ok::<SchemaView, SchemaError>(value),
    ensures
        parsed_schema(schema_json(SchemaView::Mapping(Box::new(value)))) == Ok::<
            SchemaView,
            SchemaError,
        >(SchemaView::Mapping(Box::new(value))),
{
    lemma_primitive_names();
    let entries = with(tagged("map"@), Key::Values, schema_json(value));
    lemma_at_with(Seq::empty(), Key::Type, JsonView::String("map"@));
    lemma_at_with(tagged("map"@), Key::Values, schema_json(value));
    assert(type_at(entries) == Ok::<Seq<char>, SchemaError>("map"@));
    assert(required_schema_at(entries, Key::Values) == Ok::<
        SchemaView,
        SchemaError,
    >(value));
    assert(schema_json(SchemaView::Mapping(Box::new(value))) == JsonView::Object(entries));
}

/// The logical type of a fixed is read back.
proof fn lemma_fixed_logical_round_trip(sized: Entries, logical: Option<FixedLogical>)
    requires
        at(sized, Key::LogicalType) is None,
        at(sized, Key::Scale) is None,
    ensures
        fixed_logical_at(
            match logical {
                None => sized,
                Some(FixedLogical::Decimal(precision, scale)) => with_decimal(
                    sized,
                    precision,
                    scale,
                ),
                Some(FixedLogical::Duration) => with(
                    sized,
                    Key::LogicalType,
                    JsonView::String("duration"@),
                ),
            },
        ) == Ok::<Option<FixedLogical>, SchemaError>(logical),
{
    reveal_strlit("decimal");
    reveal_strlit("duration");
    assert("decimal"@.len() == 7 && "duration"@.len() == 8);
    match logical {
        None => {},
        Some(FixedLogical::Decimal(precision, scale)) => {
            lemma_decimal_round_trip(sized, precision, scale);
        },
        Some(FixedLogical::Duration) => {
            lemma_at_with(sized, Key::LogicalType, JsonView::String("duration"@));
        },
    }
}

/// A fixed is read back.
proof fn lemma_fixed_round_trip(fixed: FixedView)
    ensures
        parsed_schema(schema_json(SchemaView::Fixed(fixed))) == Ok::<SchemaView, SchemaError>(
            SchemaView::Fixed(fixed),
        ),
{
    lemma_primitive_names();
    let start = named("fixed"@, fixed.name, fixed.namespace, fixed.aliases, fixed.doc);
    let sized = with(start, Key::Size, size_json(fixed.size));
    let entries = match fixed.logical {
        None => sized,
        Some(FixedLogical::Decimal(precision, scale)) => with_decimal(sized, precision, scale),
        Some(FixedLogical::Duration) => with(
            sized,
            Key::LogicalType,
            JsonView::String("duration"@),
        ),
    };
    lemma_at_named("fixed"@, fixed.name, fixed.namespace, fixed.aliases, fixed.doc);
    lemma_at_with(start, Key::Size, size_json(fixed.size));
    lemma_fixed_logical_round_trip(sized, fixed.logical);
    match fixed.logical {
        None => {},
        Some(FixedLogical::Decimal(precision, scale)) => {
            lemma_at_with_decimal(sized, precision, scale);
        },
        Some(FixedLogical::Duration) => {
            lemma_at_with(sized, Key::LogicalType, JsonView::String("duration"@));
        },
    }
    lemma_named_round_trip(entries, fixed.name, fixed.namespace, fixed.aliases, fixed.doc);
    assert(type_at(entries) == Ok::<Seq<char>, SchemaError>("fixed"@));
    assert(size_at(entries, Key::Size) == Ok::<Option<usize>, SchemaError>(
        Some(fixed.size),
    ));
    assert(fixed_at(entries) == Ok::<FixedView, SchemaError>(
        fixed,
    ));
    assert(schema_json(SchemaView::Fixed(fixed)) == JsonView::Object(entries));
}

/// Reading the JSON form of a schema gives the schema back.
pub proof fn lemma_parse_serialize(schema: SchemaView)
    ensures
        parsed_schema(schema_json(schema)) == Ok::<SchemaView, SchemaError>(schema),
    decreases schema, 0nat,
{
    match schema {
        SchemaView::Int(Some(logical)) => {
            lemma_int_round_trip(logical);
        },
        SchemaView::Long(Some(logical)) => {
            lemma_long_round_trip(logical);
        },
        SchemaView::Bytes(Some(logical)) => {
            lemma_bytes_round_trip(logical->Decimal_0, logical->Decimal_1);
        },
        SchemaView::String(Some(logical)) => {
            assert(logical is Uuid);
            lemma_uuid_round_trip();
        },
        SchemaView::Record(record) => {
            lemma_parse_serialize_fields(record.fields, record.fields.len());
            assert(record.fields.take(record.fields.len() as int) =~= record.fields);
            lemma_record_round_trip(record);
        },
        SchemaView::Enum(enum_) => {
            lemma_enum_round_trip(enum_);
        },
        SchemaView::Array(item) => {
            lemma_parse_serialize(*item);
            lemma_array_round_trip(*item);
        },
        SchemaView::Mapping(value) => {
            lemma_parse_serialize(*value);
            lemma_mapping_round_trip(*value);
        },
        SchemaView::Union(members) => {
            lemma_parse_serialize_schemas(members, members.len());
            assert(members.take(members.len() as int) =~= members);
            assert(schemas_json(members).len() == members.len());
        },
        SchemaView::Fixed(fixed) => {
            lemma_fixed_round_trip(fixed);
        },
        _ => {
            lemma_plain_round_trip(schema);
        },
    }
}

/// Reading the JSON forms of the first `n` schemas of a list gives these
/// schemas back.
pub proof fn lemma_parse_serialize_schemas(schemas: Seq<SchemaView>, n: nat)
    requires
        n <= schemas.len(),
    ensures
        parsed_schemas(schemas_json(schemas), n) == Ok::<Seq<SchemaView>, SchemaError>(
            schemas.take(n as int),
        ),
    decreases schemas, n,
{
    if n == 0 {
        assert(schemas.take(0) =~= Seq::empty());
    } else {
        lemma_parse_serialize_schemas(schemas, (n - 1) as nat);
        lemma_parse_serialize(schemas[n - 1]);
        assert(schemas.take(n as int) =~= schemas.take(n - 1).push(schemas[n - 1]));
    }
}

/// Reading the JSON form of a field gives the field back.
pub proof fn lemma_parse_serialize_field(field: FieldView)
    ensures
        parsed_field(field_json(field)) == Ok::<FieldView, SchemaError>(field),
    decreases field, 0nat,
{
    let default = match field.default {
        Some(schema) => Some(schema_json(schema)),
        None => None,
    };
    let order = match field.order {
        Some(order) => Some(JsonView::String(order_name(order))),
        None => None,
    };
    let a = with(Seq::empty(), Key::Name, JsonView::String(field.name));
    let b = with_option(a, Key::Aliases, aliases_json(field.aliases));
    let c = with_option(b, Key::Doc, text_option_json(field.doc));
    let d = with_option(c, Key::Default, default);
    let e = with(d, Key::Type, schema_json(field.schema));
    let f = with_option(e, Key::Order, order);
    lemma_at_with(Seq::empty(), Key::Name, JsonView::String(field.name));
    lemma_at_with_option(a, Key::Aliases, aliases_json(field.aliases));
    lemma_at_with_option(b, Key::Doc, text_option_json(field.doc));
    lemma_at_with_option(c, Key::Default, default);
    lemma_at_with(d, Key::Type, schema_json(field.schema));
    lemma_at_with_option(e, Key::Order, order);
    lemma_at_empty(Key::Aliases);
    lemma_at_empty(Key::Doc);
    lemma_at_empty(Key::Default);
    lemma_at_empty(Key::Order);
    assert(field_json(field) == JsonView::Object(f));
    lemma_aliases_round_trip(f, field.aliases);
    lemma_parse_serialize(field.schema);
    if let Some(schema) = field.default {
        lemma_parse_serialize(schema);
    }
    if let Some(o) = field.order {
        lemma_order_names(o);
    }
}

/// Reading the JSON forms of the first `n` fields of a list gives these
/// fields back.
pub proof fn lemma_parse_serialize_fields(fields: Seq<FieldView>, n: nat)
    requires
        n <= fields.len(),
    ensures
        parsed_fields(fields_json(fields), n) == Ok::<Seq<FieldView>, SchemaError>(
            fields.take(n as int),
        ),
    decreases fields, n,
{
    if n == 0 {
        assert(fields.take(0) =~= Seq::empty());
    } else {
        lemma_parse_serialize_fields(fields, (n - 1) as nat);
        lemma_parse_serialize_field(fields[n - 1]);
        assert(fields.take(n as int) =~= fields.take(n - 1).push(fields[n - 1]));
    }
}

/// An object that holds nothing under a key has no entry with that key.
proof fn lemma_absent(entries: Entries, key: Seq<char>, n: nat)
    requires
        n <= entries.len(),
        index_of_last(entries, key, n) < 0,
    ensures
        forall|i: int| 0 <= i < n ==> (#[trigger] entries[i]).0 != key,
    decreases n,
{
    if n > 0 {
        lemma_absent(entries, key, (n - 1) as nat);
    }
}

/// Whether the entries have distinct keys and values that can be written.
pub open spec fn tidy(entries: Entries) -> bool {
    distinct_keys(entries) && all_values_writable(entries)
}

/// A new key with a value that can be written keeps the entries tidy.
proof fn lemma_tidy_with(entries: Entries, k: Key, v: JsonView)
    requires
        tidy(entries),
        at(entries, k) is None,
        writable(v),
    ensures
        tidy(with(entries, k, v)),
{
    lemma_index_of_last(entries, key_name(k), entries.len());
    lemma_absent(entries, key_name(k), entries.len());
    let after = with(entries, k, v);
    assert forall|i: int, j: int| 0 <= i < j < after.len() implies after[i].0 != after[j].0 by {
        if j < entries.len() {
            assert(after[i] == entries[i] && after[j] == entries[j]);
        } else {
            assert(after[i] == entries[i]);
        }
    }
    assert forall|i: int| 0 <= i < after.len() implies writable((#[trigger] after[i]).1) by {
        if i < entries.len() {
            assert(after[i] == entries[i]);
        }
    }
}

/// A new key with an optional value that can be written keeps the entries
/// tidy.
proof fn lemma_tidy_with_option(entries: Entries, k: Key, v: Option<JsonView>)
    requires
        tidy(entries),
        at(entries, k) is None,
        v is Some ==> writable(v->Some_0),
    ensures
        tidy(with_option(entries, k, v)),
{
    if v is Some {
        lemma_tidy_with(entries, k, v->Some_0);
    }
}

/// A list of strings can be written.
proof fn lemma_texts_writable(texts: Seq<Seq<char>>)
    ensures
        writable(texts_json(texts)),
{
    assert(all_writable(texts_json(texts)->Array_0));
}

/// The entries that the named types start with are tidy.
proof fn lemma_tidy_named(
    tag: Seq<char>,
    name: Seq<char>,
    namespace: Option<Seq<char>>,
    aliases: Seq<Seq<char>>,
    doc: Option<Seq<char>>,
)
    ensures
        tidy(named(tag, name, namespace, aliases, doc)),
{
    let a = tagged(tag);
    let b = with(a, Key::Name, JsonView::String(name));
    let c = with_option(b, Key::Namespace, text_option_json(namespace));
    let d = with_option(c, Key::Aliases, aliases_json(aliases));
    lemma_at_with(Seq::empty(), Key::Type, JsonView::String(tag));
    lemma_at_with(a, Key::Name, JsonView::String(name));
    lemma_at_with_option(b, Key::Namespace, text_option_json(namespace));
    lemma_at_with_option(c, Key::Aliases, aliases_json(aliases));
    lemma_at_empty(Key::Type);
    lemma_at_empty(Key::Name);
    lemma_at_empty(Key::Namespace);
    lemma_at_empty(Key::Aliases);
    lemma_at_empty(Key::Doc);
    lemma_texts_writable(aliases);
    assert(tidy(Seq::empty()));
    lemma_tidy_with(Seq::empty(), Key::Type, JsonView::String(tag));
    lemma_tidy_with(a, Key::Name, JsonView::String(name));
    lemma_tidy_with_option(b, Key::Namespace, text_option_json(namespace));
    lemma_tidy_with_option(c, Key::Aliases, aliases_json(aliases));
    lemma_tidy_with_option(d, Key::Doc, text_option_json(doc));
}

/// The entries of a decimal keep the entries tidy.
proof fn lemma_tidy_decimal(entries: Entries, precision: usize, scale: usize)
    requires
        tidy(entries),
        at(entries, Key::LogicalType) is None,
        at(entries, Key::Precision) is None,
        at(entries, Key::Scale) is None,
    ensures
        tidy(with_decimal(entries, precision, scale)),
{
    let a = with(entries, Key::LogicalType, JsonView::String("decimal"@));
    let b = with(a, Key::Precision, size_json(precision));
    lemma_at_with(entries, Key::LogicalType, JsonView::String("decimal"@));
    lemma_at_with(a, Key::Precision, size_json(precision));
    lemma_tidy_with(entries, Key::LogicalType, JsonView::String("decimal"@));
    lemma_tidy_with(a, Key::Precision, size_json(precision));
    if scale > 0 {
        lemma_tidy_with(b, Key::Scale, size_json(scale));
    }
}

/// An object of a type and one more entry that can be written is tidy.
proof fn lemma_tidy_pair(tag: Seq<char>, k: Key, v: JsonView)
    requires
        k != Key::Type,
        writable(v),
    ensures
        tidy(with(tagged(tag), k, v)),
{
    lemma_at_empty(Key::Type);
    lemma_at_empty(k);
    assert(tidy(Seq::empty()));
    lemma_at_with(Seq::empty(), Key::Type, JsonView::String(tag));
    lemma_tidy_with(Seq::empty(), Key::Type, JsonView::String(tag));
    lemma_tidy_with(tagged(tag), k, v);
}

/// The JSON form of a record can be written where those of its fields can.
proof fn lemma_record_writable(record: RecordView)
    requires
        all_writable(fields_json(record.fields)),
    ensures
        writable(schema_json(SchemaView::Record(record))),
{
    let start = named("record"@, record.name, record.namespace, record.aliases, record.doc);
    lemma_at_named("record"@, record.name, record.namespace, record.aliases, record.doc);
    lemma_tidy_named("record"@, record.name, record.namespace, record.aliases, record.doc);
    lemma_tidy_with(start, Key::Fields, JsonView::Array(fields_json(record.fields)));
}

/// The JSON form of an enum can be written.
proof fn lemma_enum_writable(enum_: EnumView)
    ensures
        writable(schema_json(SchemaView::Enum(enum_))),
{
    let start = named("enum"@, enum_.name, enum_.namespace, enum_.aliases, enum_.doc);
    let middle = with_option(start, Key::Default, text_option_json(enum_.default));
    lemma_at_named("enum"@, enum_.name, enum_.namespace, enum_.aliases, enum_.doc);
    lemma_tidy_named("enum"@, enum_.name, enum_.namespace, enum_.aliases, enum_.doc);
    lemma_at_with_option(start, Key::Default, text_option_json(enum_.default));
    lemma_tidy_with_option(start, Key::Default, text_option_json(enum_.default));
    lemma_texts_writable(enum_.symbols);
    lemma_tidy_with(middle, Key::Symbols, texts_json(enum_.symbols));
}

/// The JSON form of a fixed can be written.
proof fn lemma_fixed_writable(fixed: FixedView)
    ensures
        writable(schema_json(SchemaView::Fixed(fixed))),
{
    let start = named("fixed"@, fixed.name, fixed.namespace, fixed.aliases, fixed.doc);
    let sized = with(start, Key::Size, size_json(fixed.size));
    lemma_at_named("fixed"@, fixed.name, fixed.namespace, fixed.aliases, fixed.doc);
    lemma_tidy_named("fixed"@, fixed.name, fixed.namespace, fixed.aliases, fixed.doc);
    lemma_at_with(start, Key::Size, size_json(fixed.size));
    lemma_tidy_with(start, Key::Size, size_json(fixed.size));
    match fixed.logical {
        None => {},
        Some(FixedLogical::Decimal(precision, scale)) => {
            lemma_tidy_decimal(sized, precision, scale);
        },
        Some(FixedLogical::Duration) => {
            lemma_tidy_with(sized, Key::LogicalType, JsonView::String("duration"@));
        },
    }
}

/// The JSON form of a field can be written where those of its schemas can.
proof fn lemma_field_writable(field: FieldView)
    requires
        writable(schema_json(field.schema)),
        field.default is Some ==> writable(schema_json(field.default->Some_0)),
    ensures
        writable(field_json(field)),
{
    let default = match field.default {
        Some(schema) => Some(schema_json(schema)),
        None => None,
    };
    let order = match field.order {
        Some(order) => Some(JsonView::String(order_name(order))),
        None => None,
    };
    let a = with(Seq::empty(), Key::Name, JsonView::String(field.name));
    let b = with_option(a, Key::Aliases, aliases_json(field.aliases));
    let c = with_option(b, Key::Doc, text_option_json(field.doc));
    let d = with_option(c, Key::Default, default);
    let e = with(d, Key::Type, schema_json(field.schema));
    let f = with_option(e, Key::Order, order);
    lemma_at_with(Seq::empty(), Key::Name, JsonView::String(field.name));
    lemma_at_with_option(a, Key::Aliases, aliases_json(field.aliases));
    lemma_at_with_option(b, Key::Doc, text_option_json(field.doc));
    lemma_at_with_option(c, Key::Default, default);
    lemma_at_with(d, Key::Type, schema_json(field.schema));
    lemma_at_empty(Key::Name);
    lemma_at_empty(Key::Aliases);
    lemma_at_empty(Key::Doc);
    lemma_at_empty(Key::Default);
    lemma_at_empty(Key::Type);
    lemma_at_empty(Key::Order);
    lemma_texts_writable(field.aliases);
    assert(tidy(Seq::empty()));
    lemma_tidy_with(Seq::empty(), Key::Name, JsonView::String(field.name));
    lemma_tidy_with_option(a, Key::Aliases, aliases_json(field.aliases));
    lemma_tidy_with_option(b, Key::Doc, text_option_json(field.doc));
    lemma_tidy_with_option(c, Key::Default, default);
    lemma_tidy_with(d, Key::Type, schema_json(field.schema));
    lemma_tidy_with_option(e, Key::Order, order);
    assert(field_json(field) == JsonView::Object(f));
}

/// The JSON form of every schema can be handed to `serde_json` as it is.
pub proof fn lemma_schema_json_writable(schema: SchemaView)
    ensures
        writable(schema_json(schema)),
    decreases schema, 0nat,
{
    match schema {
        SchemaView::Int(Some(logical)) => {
            lemma_tidy_pair(
                "int"@,
                Key::LogicalType,
                JsonView::String(int_logical_name(logical)),
            );
        },
        SchemaView::Long(Some(logical)) => {
            lemma_tidy_pair(
                "long"@,
                Key::LogicalType,
                JsonView::String(long_logical_name(logical)),
            );
        },
        SchemaView::Bytes(Some(logical)) => {
            lemma_at_empty(Key::Type);
            assert(tidy(Seq::empty()));
            lemma_at_with(Seq::empty(), Key::Type, JsonView::String("bytes"@));
            lemma_tidy_with(Seq::empty(), Key::Type, JsonView::String("bytes"@));
            lemma_at_empty(Key::LogicalType);
            lemma_at_empty(Key::Precision);
            lemma_at_empty(Key::Scale);
            lemma_tidy_decimal(tagged("bytes"@), logical->Decimal_0, logical->Decimal_1);
        },
        SchemaView::String(Some(logical)) => {
            assert(logical is Uuid);
            lemma_tidy_pair("string"@, Key::LogicalType, JsonView::String("uuid"@));
        },
        SchemaView::Record(record) => {
            lemma_fields_json_writable(record.fields, record.fields.len());
            lemma_record_writable(record);
        },
        SchemaView::Enum(enum_) => {
            lemma_enum_writable(enum_);
        },
        SchemaView::Array(item) => {
            lemma_schema_json_writable(*item);
            lemma_tidy_pair("array"@, Key::Items, schema_json(*item));
        },
        SchemaView::Mapping(value) => {
            lemma_schema_json_writable(*value);
            lemma_tidy_pair("map"@, Key::Values, schema_json(*value));
        },
        SchemaView::Union(members) => {
            lemma_schemas_json_writable(members, members.len());
        },
        SchemaView::Fixed(fixed) => {
            lemma_fixed_writable(fixed);
        },
        _ => {},
    }
}

/// The JSON forms of the first `n` schemas of a list can be written.
proof fn lemma_schemas_json_writable(schemas: Seq<SchemaView>, n: nat)
    requires
        n <= schemas.len(),
    ensures
        forall|i: int| 0 <= i < n ==> writable(#[trigger] schemas_json(schemas)[i]),
        n == schemas.len() ==> all_writable(schemas_json(schemas)),
    decreases schemas, n,
{
    if n > 0 {
        lemma_schemas_json_writable(schemas, (n - 1) as nat);
        lemma_schema_json_writable(schemas[n - 1]);
    }
}

/// The JSON forms of the first `n` fields of a list can be written.
proof fn lemma_fields_json_writable(fields: Seq<FieldView>, n: nat)
    requires
        n <= fields.len(),
    ensures
        forall|i: int| 0 <= i < n ==> writable(#[trigger] fields_json(fields)[i]),
        n == fields.len() ==> all_writable(fields_json(fields)),
    decreases fields, n,
{
    if n > 0 {
        lemma_fields_json_writable(fields, (n - 1) as nat);
        let field = fields[n - 1];
        lemma_schema_json_writable(field.schema);
        if let Some(schema) = field.default {
            lemma_schema_json_writable(schema);
        }
        lemma_field_writable(field);
    }
}

} // verus!
