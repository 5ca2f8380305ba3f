//! Reading a schema from its JSON form.
use crate::schema::{
    fields_view, schemas_view, text_option_view, texts_view, BytesLogical, Enum, EnumView, Field,
    FieldView, Fixed, FixedLogical, FixedView, Order, Record, RecordView, Schema, SchemaView,
    StringLogical,
};
use crate::schema::json::{
    entries_view, find, get, json_view, jsons_view, str_eq, Json, JsonView, Number,
};
use crate::schema::names::{
    int_logical, key_name, key_text, long_logical, order_named, primitive, to_int_logical,
    to_long_logical, to_order_named, to_primitive, Key,
};
use crate::schema::se::Entries;
use vstd::prelude::*;

verus! {

/// Why a JSON value is not a schema.
#[derive(Debug, Clone, Copy, PartialEq, Eq, Structural, Hash)]
pub enum SchemaError {
    /// An object lacks a key that it must have.
    Missing(Key),
    /// The value under a key has the wrong shape.
    Invalid(Key),
    /// A string stands for a schema and names no primitive type.
    UnknownPrimitive,
    /// The type of an object is neither primitive nor one of the complex types.
    UnknownType,
    /// The order of a field is none of ascending, descending and ignore.
    UnknownOrder,
    /// A boolean or a number stands for a schema.
    NotASchema,
    /// A field is not an object.
    NotAField,
    /// The text is not JSON.
    Syntax,
}

/// The value that an object holds under `key`.
pub open spec fn at(entries: Entries, key: Key) -> Option<JsonView> {
    get(entries, key_name(key))
}

/// The type that an object names: a string, or `null` for the null type.
pub open spec fn type_at(entries: Entries) -> Result<Seq<char>, SchemaError> {
    match at(entries, Key::Type) {
        None => Err(SchemaError::Missing(Key::Type)),
        Some(JsonView::String(name)) => Ok(name),
        Some(JsonView::Null) => Ok("null"@),
        Some(_) => Err(SchemaError::Invalid(Key::Type)),
    }
}

/// The string under `key`, where the key is present.
pub open spec fn string_at(entries: Entries, key: Key) -> Result<Option<Seq<char>>, SchemaError> {
    match at(entries, key) {
        None => Ok(None),
        Some(JsonView::String(text)) => Ok(Some(text)),
        Some(_) => Err(SchemaError::Invalid(key)),
    }
}

/// The string under a key that must be present.
pub open spec fn required_string_at(entries: Entries, key: Key) -> Result<Seq<char>, SchemaError> {
    match string_at(entries, key) {
        Err(e) => Err(e),
        Ok(None) => Err(SchemaError::Missing(key)),
        Ok(Some(text)) => Ok(text),
    }
}

/// The size that a number stands for: an integer from 0 to `usize::MAX`.
pub open spec fn size_of(number: Number) -> Option<usize> {
    match number {
        Number::PosInt(n) => if n <= usize::MAX {
            Some(n as usize)
        } else {
            None
        },
        Number::NegInt(n) => if 0 <= n <= usize::MAX {
            Some(n as usize)
        } else {
            None
        },
        Number::Fraction => None,
    }
}

/// The size under `key`, where the key is present.
pub open spec fn size_at(entries: Entries, key: Key) -> Result<Option<usize>, SchemaError> {
    match at(entries, key) {
        None => Ok(None),
        Some(JsonView::Number(number)) => match size_of(number) {
            Some(n) => Ok(Some(n)),
            None => Err(SchemaError::Invalid(key)),
        },
        Some(_) => Err(SchemaError::Invalid(key)),
    }
}

/// Whether every value of a list is a string.
pub open spec fn all_strings(items: Seq<JsonView>) -> bool {
    forall|i: int| 0 <= i < items.len() ==> items[i] is String
}

/// The texts of a list of strings.
pub open spec fn strings_of(items: Seq<JsonView>) -> Seq<Seq<char>> {
    Seq::new(items.len(), |i: int| items[i]->String_0)
}

/// The list of strings under `key`, where the key is present.
pub open spec fn strings_at(entries: Entries, key: Key) -> Result<
    Option<Seq<Seq<char>>>,
    SchemaError,
> {
    match at(entries, key) {
        None => Ok(None),
        Some(JsonView::Array(items)) => if all_strings(items) {
            Ok(Some(strings_of(items)))
        } else {
            Err(SchemaError::Invalid(key))
        },
        Some(_) => Err(SchemaError::Invalid(key)),
    }
}

/// The aliases of an object; there are none where the key is absent.
pub open spec fn aliases_at(entries: Entries) -> Result<Seq<Seq<char>>, SchemaError> {
    match strings_at(entries, Key::Aliases) {
        Err(e) => Err(e),
        Ok(None) => Ok(Seq::empty()),
        Ok(Some(aliases)) => Ok(aliases),
    }
}

/// The name of the logical type of an object; it is empty where the key is
/// absent.
pub open spec fn logical_at(entries: Entries) -> Result<Seq<char>, SchemaError> {
    match string_at(entries, Key::LogicalType) {
        Err(e) => Err(e),
        Ok(None) => Ok(Seq::empty()),
        Ok(Some(name)) => Ok(name),
    }
}

/// Precision and scale of a decimal. The precision must be present; the
/// scale is 0 where it is absent.
pub open spec fn decimal_at(entries: Entries) -> Result<(usize, usize), SchemaError> {
    match size_at(entries, Key::Precision) {
        Err(e) => Err(e),
        Ok(None) => Err(SchemaError::Missing(Key::Precision)),
        Ok(Some(precision)) => match size_at(entries, Key::Scale) {
            Err(e) => Err(e),
            Ok(None) => Ok((precision, 0usize)),
            Ok(Some(scale)) => Ok((precision, scale)),
        },
    }
}

/// What the named types have in common.
pub struct Named {
    pub name: Seq<char>,
    pub namespace: Option<Seq<char>>,
    pub aliases: Seq<Seq<char>>,
    pub doc: Option<Seq<char>>,
}

/// Name, namespace, aliases and doc of an object, looked at in this order.
pub open spec fn named_at(entries: Entries) -> Result<Named, SchemaError> {
    match required_string_at(entries, Key::Name) {
        Err(e) => Err(e),
        Ok(name) => match string_at(entries, Key::Namespace) {
            Err(e) => Err(e),
            Ok(namespace) => match aliases_at(entries) {
                Err(e) => Err(e),
                Ok(aliases) => match string_at(entries, Key::Doc) {
                    Err(e) => Err(e),
                    Ok(doc) => Ok(Named { name, namespace, aliases, doc }),
                },
            },
        },
    }
}

/// The order of a field, where the key is present.
pub open spec fn order_at(entries: Entries) -> Result<Option<Order>, SchemaError> {
    match string_at(entries, Key::Order) {
        Err(e) => Err(e),
        Ok(None) => Ok(None),
        Ok(Some(name)) => match order_named(name) {
            Some(order) => Ok(Some(order)),
            None => Err(SchemaError::UnknownOrder),
        },
    }
}

/// The primitive type `plain`, named `name`, with the logical type that the
/// object gives it. A logical type that the primitive type does not have is
/// passed over.
pub open spec fn refined(name: Seq<char>, plain: SchemaView, entries: Entries) -> Result<
    SchemaView,
    SchemaError,
> {
    if name == "string"@ {
        match logical_at(entries) {
            Err(e) => Err(e),
            Ok(logical) => if logical == "uuid"@ {
                Ok(SchemaView::String(Some(StringLogical::Uuid)))
            } else {
                Ok(plain)
            },
        }
    } else if name == "int"@ {
        match logical_at(entries) {
            Err(e) => Err(e),
            Ok(logical) => match int_logical(logical) {
                Some(l) => Ok(SchemaView::Int(Some(l))),
                None => Ok(plain),
            },
        }
    } else if name == "long"@ {
        match logical_at(entries) {
            Err(e) => Err(e),
            Ok(logical) => match long_logical(logical) {
                Some(l) => Ok(SchemaView::Long(Some(l))),
                None => Ok(plain),
            },
        }
    } else if name == "bytes"@ {
        match logical_at(entries) {
            Err(e) => Err(e),
            Ok(logical) => if logical == "decimal"@ {
                match decimal_at(entries) {
                    Err(e) => Err(e),
                    Ok((precision, scale)) => Ok(
                        SchemaView::Bytes(Some(BytesLogical::Decimal(precision, scale))),
                    ),
                }
            } else {
                Ok(plain)
            },
        }
    } else {
        Ok(plain)
    }
}

/// The enum that an object describes: name, namespace, aliases, doc,
/// symbols and default, looked at in this order.
pub open spec fn enum_at(entries: Entries) -> Result<EnumView, SchemaError> {
    match named_at(entries) {
        Err(e) => Err(e),
        Ok(named) => match strings_at(entries, Key::Symbols) {
            Err(e) => Err(e),
            Ok(None) => Err(SchemaError::Missing(Key::Symbols)),
            Ok(Some(symbols)) => match string_at(entries, Key::Default) {
                Err(e) => Err(e),
                Ok(default) => Ok(
                    EnumView {
                        name: named.name,
                        namespace: named.namespace,
                        aliases: named.aliases,
                        doc: named.doc,
                        symbols,
                        default,
                    },
                ),
            },
        },
    }
}

/// The logical type of a fixed.
pub open spec fn fixed_logical_at(entries: Entries) -> Result<Option<FixedLogical>, SchemaError> {
    match logical_at(entries) {
        Err(e) => Err(e),
        Ok(logical) => if logical == "decimal"@ {
            match decimal_at(entries) {
                Err(e) => Err(e),
                Ok((precision, scale)) => Ok(Some(FixedLogical::Decimal(precision, scale))),
            }
        } else if logical == "duration"@ {
            Ok(Some(FixedLogical::Duration))
        } else {
            Ok(None)
        },
    }
}

/// The fixed that an object describes: size, logical type, name, namespace,
/// aliases and doc, looked at in this order.
pub open spec fn fixed_at(entries: Entries) -> Result<FixedView, SchemaError> {
    match size_at(entries, Key::Size) {
        Err(e) => Err(e),
        Ok(None) => Err(SchemaError::Missing(Key::Size)),
        Ok(Some(size)) => match fixed_logical_at(entries) {
            Err(e) => Err(e),
            Ok(logical) => match named_at(entries) {
                Err(e) => Err(e),
                Ok(named) => Ok(
                    FixedView {
                        name: named.name,
                        namespace: named.namespace,
                        doc: named.doc,
                        aliases: named.aliases,
                        size,
                        logical,
                    },
                ),
            },
        },
    }
}

/// The schema that a JSON value describes, or why it describes none.
/// `null` is the null type, a string names a primitive type, an array is a
/// union of what its values describe, and an object is what its type says.
pub open spec fn parsed_schema(json: JsonView) -> Result<SchemaView, SchemaError>
    decreases json, 0nat,
{
    match json {
        JsonView::Null => Ok(SchemaView::Null),
        JsonView::String(name) => match primitive(name) {
            Some(schema) => Ok(schema),
            None => Err(SchemaError::UnknownPrimitive),
        },
        JsonView::Array(items) => match parsed_schemas(items, items.len()) {
            Err(e) => Err(e),
            Ok(members) => Ok(SchemaView::Union(members)),
        },
        JsonView::Object(entries) => parsed_object(entries),
        JsonView::Bool(_) => Err(SchemaError::NotASchema),
        JsonView::Number(_) => Err(SchemaError::NotASchema),
    }
}

/// The schemas that the first `n` values of a list describe, or why the
/// first of them that describes none does not.
pub open spec fn parsed_schemas(items: Seq<JsonView>, n: nat) -> Result<
    Seq<SchemaView>,
    SchemaError,
>
    decreases items, n,
{
    if n == 0 || n > items.len() {
        Ok(Seq::empty())
    } else {
        match parsed_schemas(items, (n - 1) as nat) {
            Err(e) => Err(e),
            Ok(front) => match parsed_schema(items[n - 1]) {
                Err(e) => Err(e),
                Ok(schema) => Ok(front.push(schema)),
            },
        }
    }
}

/// The schema under `key`, where the key is present.
pub open spec fn schema_at(entries: Entries, key: Key) -> Result<Option<SchemaView>, SchemaError>
    decreases entries, 0nat,
{
    match at(entries, key) {
        None => Ok(None),
        Some(value) => match parsed_schema(value) {
            Err(e) => Err(e),
            Ok(schema) => Ok(Some(schema)),
        },
    }
}

/// The schema under a key that must be present.
pub open spec fn required_schema_at(entries: Entries, key: Key) -> Result<SchemaView, SchemaError>
    decreases entries, 1nat,
{
    match schema_at(entries, key) {
        Err(e) => Err(e),
        Ok(None) => Err(SchemaError::Missing(key)),
        Ok(Some(schema)) => Ok(schema),
    }
}

/// The schema that an object describes.
pub open spec fn parsed_object(entries: Entries) -> Result<SchemaView, SchemaError>
    decreases entries, 2nat,
{
    match type_at(entries) {
        Err(e) => Err(e),
        Ok(name) => match primitive(name) {
            Some(plain) => refined(name, plain, entries),
            None => if name == "enum"@ {
                match enum_at(entries) {
                    Err(e) => Err(e),
                    Ok(enum_) => Ok(SchemaView::Enum(enum_)),
                }
            } else if name == "map"@ {
                match required_schema_at(entries, Key::Values) {
                    Err(e) => Err(e),
                    Ok(value) => Ok(SchemaView::Mapping(Box::new(value))),
                }
            } else if name == "array"@ {
                match required_schema_at(entries, Key::Items) {
                    Err(e) => Err(e),
                    Ok(item) => Ok(SchemaView::Array(Box::new(item))),
                }
            } else if name == "record"@ {
                match record_at(entries) {
                    Err(e) => Err(e),
                    Ok(record) => Ok(SchemaView::Record(record)),
                }
            } else if name == "fixed"@ {
                match fixed_at(entries) {
                    Err(e) => Err(e),
                    Ok(fixed) => Ok(SchemaView::Fixed(fixed)),
                }
            } else {
                Err(SchemaError::UnknownType)
            },
        },
    }
}

/// The record that an object describes: name, namespace, aliases, doc and
/// fields, looked at in this order.
pub open spec fn record_at(entries: Entries) -> Result<RecordView, SchemaError>
    decreases entries, 1nat,
{
    match named_at(entries) {
        Err(e) => Err(e),
        Ok(named) => match at(entries, Key::Fields) {
            None => Err(SchemaError::Missing(Key::Fields)),
            Some(JsonView::Array(items)) => match parsed_fields(items, items.len()) {
                Err(e) => Err(e),
                Ok(fields) => Ok(
                    RecordView {
                        name: named.name,
                        namespace: named.namespace,
                        doc: named.doc,
                        aliases: named.aliases,
                        fields,
                    },
                ),
            },
            Some(_) => Err(SchemaError::Invalid(Key::Fields)),
        },
    }
}

/// The fields that the first `n` values of a list describe, or why the
/// first of them that describes none does not.
pub open spec fn parsed_fields(items: Seq<JsonView>, n: nat) -> Result<Seq<FieldView>, SchemaError>
    decreases items, n,
{
    if n == 0 || n > items.len() {
        Ok(Seq::empty())
    } else {
        match parsed_fields(items, (n - 1) as nat) {
            Err(e) => Err(e),
            Ok(front) => match parsed_field(items[n - 1]) {
                Err(e) => Err(e),
                Ok(field) => Ok(front.push(field)),
            },
        }
    }
}

/// The field that a JSON value describes: an object with name, doc, type,
/// default, order and aliases, looked at in this order.
pub open spec fn parsed_field(json: JsonView) -> Result<FieldView, SchemaError>
    decreases json, 0nat,
{
    match json {
        JsonView::Object(entries) => match required_string_at(entries, Key::Name) {
            Err(e) => Err(e),
            Ok(name) => match string_at(entries, Key::Doc) {
                Err(e) => Err(e),
                Ok(doc) => match required_schema_at(entries, Key::Type) {
                    Err(e) => Err(e),
                    Ok(schema) => match schema_at(entries, Key::Default) {
                        Err(e) => Err(e),
                        Ok(default) => match order_at(entries) {
                            Err(e) => Err(e),
                            Ok(order) => match aliases_at(entries) {
                                Err(e) => Err(e),
                                Ok(aliases) => Ok(
                                    FieldView { name, doc, schema, default, order, aliases },
                                ),
                            },
                        },
                    },
                },
            },
        },
        _ => Err(SchemaError::NotAField),
    }
}

/// Once a value of a list describes no schema, the list describes none.
proof fn lemma_parsed_schemas_err(items: Seq<JsonView>, k: nat, m: nat)
    requires
        k <= m <= items.len(),
        parsed_schemas(items, k) is Err,
    ensures
        parsed_schemas(items, m) == parsed_schemas(items, k),
    decreases m,
{
    if k < m {
        lemma_parsed_schemas_err(items, k, (m - 1) as nat);
    }
}

/// Once a value of a list describes no field, the list describes none.
proof fn lemma_parsed_fields_err(items: Seq<JsonView>, k: nat, m: nat)
    requires
        k <= m <= items.len(),
        parsed_fields(items, k) is Err,
    ensures
        parsed_fields(items, m) == parsed_fields(items, k),
    decreases m,
{
    if k < m {
        lemma_parsed_fields_err(items, k, (m - 1) as nat);
    }
}

/// The value that counts for `key`, if there is one.
fn lookup<'a>(entries: &'a Vec<(String, Json)>, key: Key) -> (value: Option<&'a Json>)
    ensures
        match value {
            Some(v) => at(entries_view(*entries), key) == Some(v@) && decreases_to!(entries => v),
            None => at(entries_view(*entries), key) is None,
        },
{
    match find(entries, key_text(key)) {
        Some(i) => Some(&entries[i].1),
        None => None,
    }
}

/// The type that an object names.
fn get_type(entries: &Vec<(String, Json)>) -> (name: Result<String, SchemaError>)
    ensures
        match name {
            Ok(n) => type_at(entries_view(*entries)) == Ok::<Seq<char>, SchemaError>(n@),
            Err(e) => type_at(entries_view(*entries)) == Err::<Seq<char>, SchemaError>(e),
        },
{
    match lookup(entries, Key::Type) {
        None => Err(SchemaError::Missing(Key::Type)),
        Some(Json::String(v)) => Ok(v.clone()),
        Some(Json::Null) => Ok("null".to_owned()),
        Some(_) => Err(SchemaError::Invalid(Key::Type)),
    }
}

/// The string under `key`, where the key is present.
fn take_string(entries: &Vec<(String, Json)>, key: Key) -> (text: Result<
    Option<String>,
    SchemaError,
>)
    ensures
        match text {
            Ok(t) => string_at(entries_view(*entries), key) == Ok::<
                Option<Seq<char>>,
                SchemaError,
            >(text_option_view(t)),
            Err(e) => string_at(entries_view(*entries), key) == Err::<
                Option<Seq<char>>,
                SchemaError,
            >(e),
        },
{
    match lookup(entries, key) {
        None => Ok(None),
        Some(Json::String(v)) => Ok(Some(v.clone())),
        Some(_) => Err(SchemaError::Invalid(key)),
    }
}

/// The string under a key that must be present.
fn take_required_string(entries: &Vec<(String, Json)>, key: Key) -> (text: Result<
    String,
    SchemaError,
>)
    ensures
        match text {
            Ok(t) => required_string_at(entries_view(*entries), key) == Ok::<
                Seq<char>,
                SchemaError,
            >(t@),
            Err(e) => required_string_at(entries_view(*entries), key) == Err::<
                Seq<char>,
                SchemaError,
            >(e),
        },
{
    match take_string(entries, key)? {
        Some(t) => Ok(t),
        None => Err(SchemaError::Missing(key)),
    }
}

/// The size that a number stands for.
fn to_size(number: &Number) -> (size: Option<usize>)
    ensures
        size == size_of(*number),
{
    match number {
        Number::PosInt(n) => {
            if *n <= usize::MAX as u64 {
                Some(*n as usize)
            } else {
                None
            }
        },
        Number::NegInt(n) => {
            if 0 <= *n && *n as u64 <= usize::MAX as u64 {
                Some(*n as usize)
            } else {
                None
            }
        },
        Number::Fraction => None,
    }
}

/// The size under `key`, where the key is present.
fn take_size(entries: &Vec<(String, Json)>, key: Key) -> (size: Result<Option<usize>, SchemaError>)
    ensures
        size == size_at(entries_view(*entries), key),
{
    match lookup(entries, key) {
        None => Ok(None),
        Some(Json::Number(number)) => match to_size(number) {
            Some(n) => Ok(Some(n)),
            None => Err(SchemaError::Invalid(key)),
        },
        Some(_) => Err(SchemaError::Invalid(key)),
    }
}

/// The list of strings under `key`, where the key is present.
fn take_strings(entries: &Vec<(String, Json)>, key: Key) -> (texts: Result<
    Option<Vec<String>>,
    SchemaError,
>)
    ensures
        match texts {
            Ok(Some(t)) => strings_at(entries_view(*entries), key) == Ok::<
                Option<Seq<Seq<char>>>,
                SchemaError,
            >(Some(texts_view(t))),
            Ok(None) => strings_at(entries_view(*entries), key) == Ok::<
                Option<Seq<Seq<char>>>,
                SchemaError,
            >(None),
            Err(e) => strings_at(entries_view(*entries), key) == Err::<
                Option<Seq<Seq<char>>>,
                SchemaError,
            >(e),
        },
{
    match lookup(entries, key) {
        None => Ok(None),
        Some(Json::Array(items)) => {
            let ghost view = jsons_view(*items);
            let mut texts: Vec<String> = Vec::new();
            let mut i: usize = 0;
            while i < items.len()
                invariant
                    i <= items@.len(),
                    view == jsons_view(*items),
                    at(entries_view(*entries), key) == Some(JsonView::Array(view)),
                    texts@.len() == i,
                    forall|k: int| 0 <= k < i ==> view[k] == JsonView::String(texts@[k]@),
                decreases items@.len() - i,
            {
                match &items[i] {
                    Json::String(v) => {
                        texts.push(v.clone());
                    },
                    _ => {
                        assert(view[i as int] == json_view(items@[i as int]));
                        assert(!(view[i as int] is String));
                        assert(!all_strings(view));
                        return Err(SchemaError::Invalid(key));
                    },
                }
                i += 1;
            }
            assert(texts_view(texts) =~= strings_of(view));
            Ok(Some(texts))
        },
        Some(_) => Err(SchemaError::Invalid(key)),
    }
}

/// The aliases of an object.
fn take_aliases(entries: &Vec<(String, Json)>) -> (aliases: Result<Vec<String>, SchemaError>)
    ensures
        match aliases {
            Ok(a) => aliases_at(entries_view(*entries)) == Ok::<Seq<Seq<char>>, SchemaError>(
                texts_view(a),
            ),
            Err(e) => aliases_at(entries_view(*entries)) == Err::<Seq<Seq<char>>, SchemaError>(e),
        },
{
    match take_strings(entries, Key::Aliases)? {
        Some(aliases) => Ok(aliases),
        None => {
            let aliases: Vec<String> = Vec::new();
            assert(texts_view(aliases) =~= Seq::empty());
            Ok(aliases)
        },
    }
}

/// The name of the logical type of an object.
fn take_logical(entries: &Vec<(String, Json)>) -> (logical: Result<String, SchemaError>)
    ensures
        match logical {
            Ok(l) => logical_at(entries_view(*entries)) == Ok::<Seq<char>, SchemaError>(l@),
            Err(e) => logical_at(entries_view(*entries)) == Err::<Seq<char>, SchemaError>(e),
        },
{
    match take_string(entries, Key::LogicalType)? {
        Some(logical) => Ok(logical),
        None => Ok(String::new()),
    }
}

/// Precision and scale of a decimal.
fn take_decimal(entries: &Vec<(String, Json)>) -> (decimal: Result<(usize, usize), SchemaError>)
    ensures
        decimal == decimal_at(entries_view(*entries)),
{
    let precision = match take_size(entries, Key::Precision)? {
        Some(precision) => precision,
        None => {
            return Err(SchemaError::Missing(Key::Precision));
        },
    };
    let scale = match take_size(entries, Key::Scale)? {
        Some(scale) => scale,
        None => 0,
    };
    Ok((precision, scale))
}

/// The order of a field, where the key is present.
fn to_order(entries: &Vec<(String, Json)>) -> (order: Result<Option<Order>, SchemaError>)
    ensures
        order == order_at(entries_view(*entries)),
{
    match take_string(entries, Key::Order)? {
        None => Ok(None),
        Some(name) => match to_order_named(name.as_str()) {
            Some(order) => Ok(Some(order)),
            None => Err(SchemaError::UnknownOrder),
        },
    }
}

/// The primitive type with the logical type that the object gives it.
fn refine(name: &str, plain: Schema, entries: &Vec<(String, Json)>) -> (schema: Result<
    Schema,
    SchemaError,
>)
    ensures
        match schema {
            Ok(s) => refined(name@, plain@, entries_view(*entries)) == Ok::<
                SchemaView,
                SchemaError,
            >(s@),
            Err(e) => refined(name@, plain@, entries_view(*entries)) == Err::<
                SchemaView,
                SchemaError,
            >(e),
        },
{
    if str_eq(name, "string") {
        let logical = take_logical(entries)?;
        if str_eq(logical.as_str(), "uuid") {
            Ok(Schema::String(Some(StringLogical::Uuid)))
        } else {
            Ok(plain)
        }
    } else if str_eq(name, "int") {
        let logical = take_logical(entries)?;
        match to_int_logical(logical.as_str()) {
            Some(l) => Ok(Schema::Int(Some(l))),
            None => Ok(plain),
        }
    } else if str_eq(name, "long") {
        let logical = take_logical(entries)?;
        match to_long_logical(logical.as_str()) {
            Some(l) => Ok(Schema::Long(Some(l))),
            None => Ok(plain),
        }
    } else if str_eq(name, "bytes") {
        let logical = take_logical(entries)?;
        if str_eq(logical.as_str(), "decimal") {
            let (precision, scale) = take_decimal(entries)?;
            Ok(Schema::Bytes(Some(BytesLogical::Decimal(precision, scale))))
        } else {
            Ok(plain)
        }
    } else {
        Ok(plain)
    }
}

/// What the named types have in common, as it is read.
pub struct NamedParts {
    pub name: String,
    pub namespace: Option<String>,
    pub aliases: Vec<String>,
    pub doc: Option<String>,
}

impl View for NamedParts {
    type V = Named;

    open spec fn view(&self) -> Named {
        Named {
            name: self.name@,
            namespace: text_option_view(self.namespace),
            aliases: texts_view(self.aliases),
            doc: text_option_view(self.doc),
        }
    }
}

/// Name, namespace, aliases and doc of an object.
fn take_named(entries: &Vec<(String, Json)>) -> (named: Result<NamedParts, SchemaError>)
    ensures
        match named {
            Ok(n) => named_at(entries_view(*entries)) == Ok::<Named, SchemaError>(n@),
            Err(e) => named_at(entries_view(*entries)) == Err::<Named, SchemaError>(e),
        },
{
    let name = take_required_string(entries, Key::Name)?;
    let namespace = take_string(entries, Key::Namespace)?;
    let aliases = take_aliases(entries)?;
    let doc = take_string(entries, Key::Doc)?;
    Ok(NamedParts { name, namespace, aliases, doc })
}

/// The enum that an object describes.
fn to_enum(entries: &Vec<(String, Json)>) -> (enum_: Result<Enum, SchemaError>)
    ensures
        match enum_ {
            Ok(x) => enum_at(entries_view(*entries)) == Ok::<EnumView, SchemaError>(x@),
            Err(e) => enum_at(entries_view(*entries)) == Err::<EnumView, SchemaError>(e),
        },
{
    let named = take_named(entries)?;
    let symbols = match take_strings(entries, Key::Symbols)? {
        Some(symbols) => symbols,
        None => {
            return Err(SchemaError::Missing(Key::Symbols));
        },
    };
    let default = take_string(entries, Key::Default)?;
    Ok(
        Enum {
            name: named.name,
            namespace: named.namespace,
            aliases: named.aliases,
            doc: named.doc,
            symbols,
            default,
        },
    )
}

/// The fixed that an object describes.
fn to_fixed(entries: &Vec<(String, Json)>) -> (fixed: Result<Fixed, SchemaError>)
    ensures
        match fixed {
            Ok(x) => fixed_at(entries_view(*entries)) == Ok::<FixedView, SchemaError>(x@),
            Err(e) => fixed_at(entries_view(*entries)) == Err::<FixedView, SchemaError>(e),
        },
{
    let size = match take_size(entries, Key::Size)? {
        Some(size) => size,
        None => {
            return Err(SchemaError::Missing(Key::Size));
        },
    };
    let logical = take_logical(entries)?;
    let logical = if str_eq(logical.as_str(), "decimal") {
        let (precision, scale) = take_decimal(entries)?;
        Some(FixedLogical::Decimal(precision, scale))
    } else if str_eq(logical.as_str(), "duration") {
        Some(FixedLogical::Duration)
    } else {
        None
    };
    let named = take_named(entries)?;
    Ok(
        Fixed {
            name: named.name,
            namespace: named.namespace,
            aliases: named.aliases,
            doc: named.doc,
            size,
            logical,
        },
    )
}

/// Reads a schema from its JSON form.
pub fn parse_schema(json: &Json) -> (schema: Result<Schema, SchemaError>)
    ensures
        match schema {
            Ok(s) => parsed_schema(json@) == Ok::<SchemaView, SchemaError>(s@),
            Err(e) => parsed_schema(json@) == Err::<SchemaView, SchemaError>(e),
        },
    decreases json, 0nat,
{
    match json {
        Json::Null => Ok(Schema::Null),
        Json::String(v) => match to_primitive(v.as_str()) {
            Some(schema) => Ok(schema),
            None => Err(SchemaError::UnknownPrimitive),
        },
        Json::Array(items) => {
            let members = parse_schemas(items)?;
            Ok(Schema::Union(members))
        },
        Json::Object(entries) => parse_object(entries),
        Json::Bool(_) => Err(SchemaError::NotASchema),
        Json::Number(_) => Err(SchemaError::NotASchema),
    }
}

/// Reads the schemas of a union.
fn parse_schemas(items: &Vec<Json>) -> (schemas: Result<Vec<Schema>, SchemaError>)
    ensures
        match schemas {
            Ok(s) => parsed_schemas(jsons_view(*items), items@.len() as nat) == Ok::<
                Seq<SchemaView>,
                SchemaError,
            >(schemas_view(s)),
            Err(e) => parsed_schemas(jsons_view(*items), items@.len() as nat) == Err::<
                Seq<SchemaView>,
                SchemaError,
            >(e),
        },
    decreases items, 0nat,
{
    let ghost view = jsons_view(*items);
    let mut schemas: Vec<Schema> = Vec::new();
    let mut i: usize = 0;
    assert(schemas_view(schemas) =~= Seq::empty());
    while i < items.len()
        invariant
            i <= items@.len(),
            view == jsons_view(*items),
            parsed_schemas(view, i as nat) == Ok::<Seq<SchemaView>, SchemaError>(
                schemas_view(schemas),
            ),
        decreases items@.len() - i,
    {
        let ghost front = schemas_view(schemas);
        match parse_schema(&items[i]) {
            Ok(schema) => {
                schemas.push(schema);
                assert(schemas_view(schemas) =~= front.push(schema@));
            },
            Err(e) => {
                proof {
                    lemma_parsed_schemas_err(view, (i + 1) as nat, items@.len() as nat);
                }
                return Err(e);
            },
        }
        i += 1;
    }
    Ok(schemas)
}

/// Reads the schema under `key`, where the key is present.
fn to_schema(entries: &Vec<(String, Json)>, key: Key) -> (schema: Result<
    Option<Schema>,
    SchemaError,
>)
    ensures
        match schema {
            Ok(Some(s)) => schema_at(entries_view(*entries), key) == Ok::<
                Option<SchemaView>,
                SchemaError,
            >(Some(s@)),
            Ok(None) => schema_at(entries_view(*entries), key) == Ok::<
                Option<SchemaView>,
                SchemaError,
            >(None),
            Err(e) => schema_at(entries_view(*entries), key) == Err::<
                Option<SchemaView>,
                SchemaError,
            >(e),
        },
    decreases entries, 0nat,
{
    match lookup(entries, key) {
        None => Ok(None),
        Some(value) => {
            let schema = parse_schema(value)?;
            Ok(Some(schema))
        },
    }
}

/// Reads the schema under a key that must be present.
fn to_required_schema(entries: &Vec<(String, Json)>, key: Key) -> (schema: Result<
    Schema,
    SchemaError,
>)
    ensures
        match schema {
            Ok(s) => required_schema_at(entries_view(*entries), key) == Ok::<
                SchemaView,
                SchemaError,
            >(s@),
            Err(e) => required_schema_at(entries_view(*entries), key) == Err::<
                SchemaView,
                SchemaError,
            >(e),
        },
    decreases entries, 1nat,
{
    match to_schema(entries, key)? {
        Some(schema) => Ok(schema),
        None => Err(SchemaError::Missing(key)),
    }
}

/// Reads the schema that an object describes.
fn parse_object(entries: &Vec<(String, Json)>) -> (schema: Result<Schema, SchemaError>)
    ensures
        match schema {
            Ok(s) => parsed_object(entries_view(*entries)) == Ok::<SchemaView, SchemaError>(s@),
            Err(e) => parsed_object(entries_view(*entries)) == Err::<SchemaView, SchemaError>(e),
        },
    decreases entries, 2nat,
{
    let name = get_type(entries)?;
    let name = name.as_str();
    match to_primitive(name) {
        Some(plain) => refine(name, plain, entries),
        None => {
            if str_eq(name, "enum") {
                Ok(Schema::Enum(to_enum(entries)?))
            } else if str_eq(name, "map") {
                Ok(Schema::Mapping(Box::new(to_required_schema(entries, Key::Values)?)))
            } else if str_eq(name, "array") {
                Ok(Schema::Array(Box::new(to_required_schema(entries, Key::Items)?)))
            } else if str_eq(name, "record") {
                Ok(Schema::Record(to_record(entries)?))
            } else if str_eq(name, "fixed") {
                Ok(Schema::Fixed(to_fixed(entries)?))
            } else {
                Err(SchemaError::UnknownType)
            }
        },
    }
}

/// Reads the record that an object describes.
fn to_record(entries: &Vec<(String, Json)>) -> (record: Result<Record, SchemaError>)
    ensures
        match record {
            Ok(r) => record_at(entries_view(*entries)) == Ok::<RecordView, SchemaError>(r@),
            Err(e) => record_at(entries_view(*entries)) == Err::<RecordView, SchemaError>(e),
        },
    decreases entries, 1nat,
{
    let named = take_named(entries)?;
    let fields = match lookup(entries, Key::Fields) {
        None => {
            return Err(SchemaError::Missing(Key::Fields));
        },
        Some(Json::Array(items)) => to_vec_fields(items)?,
        Some(_) => {
            return Err(SchemaError::Invalid(Key::Fields));
        },
    };
    Ok(
        Record {
            name: named.name,
            namespace: named.namespace,
            doc: named.doc,
            aliases: named.aliases,
            fields,
        },
    )
}

/// Reads the fields of a record.
fn to_vec_fields(items: &Vec<Json>) -> (fields: Result<Vec<Field>, SchemaError>)
    ensures
        match fields {
            Ok(f) => parsed_fields(jsons_view(*items), items@.len() as nat) == Ok::<
                Seq<FieldView>,
                SchemaError,
            >(fields_view(f)),
            Err(e) => parsed_fields(jsons_view(*items), items@.len() as nat) == Err::<
                Seq<FieldView>,
                SchemaError,
            >(e),
        },
    decreases items, 0nat,
{
    let ghost view = jsons_view(*items);
    let mut fields: Vec<Field> = Vec::new();
    let mut i: usize = 0;
    assert(fields_view(fields) =~= Seq::empty());
    while i < items.len()
        invariant
            i <= items@.len(),
            view == jsons_view(*items),
            parsed_fields(view, i as nat) == Ok::<Seq<FieldView>, SchemaError>(
                fields_view(fields),
            ),
        decreases items@.len() - i,
    {
        let ghost front = fields_view(fields);
        match parse_field(&items[i]) {
            Ok(field) => {
                fields.push(field);
                assert(fields_view(fields) =~= front.push(field@));
            },
            Err(e) => {
                proof {
                    lemma_parsed_fields_err(view, (i + 1) as nat, items@.len() as nat);
                }
                return Err(e);
            },
        }
        i += 1;
    }
    Ok(fields)
}

/// Reads a field from its JSON form.
pub fn parse_field(json: &Json) -> (field: Result<Field, SchemaError>)
    ensures
        match field {
            Ok(f) => parsed_field(json@) == Ok::<FieldView, SchemaError>(f@),
            Err(e) => parsed_field(json@) == Err::<FieldView, SchemaError>(e),
        },
    decreases json, 0nat,
{
    match json {
        Json::Object(entries) => {
            let name = take_required_string(entries, Key::Name)?;
            let doc = take_string(entries, Key::Doc)?;
            let schema = to_required_schema(entries, Key::Type)?;
            let default = to_schema(entries, Key::Default)?;
            let order = to_order(entries)?;
            let aliases = take_aliases(entries)?;
            Ok(Field { name, doc, schema, default, order, aliases })
        },
        _ => Err(SchemaError::NotAField),
    }
}

} // verus!
