//! Contains the structs that describe Avro's physical and logical types.
use vstd::prelude::*;
use vstd::std_specs::convert::FromSpecImpl;

pub mod de;
pub mod json;
pub mod laws;
pub mod names;
pub mod se;
pub mod text;

pub use de::{parse_field, parse_schema, SchemaError};
pub use json::{Json, Number};
pub use names::Key;
pub use se::{serialize_field, serialize_schema};
pub use text::{from_slice, from_str, to_string};

verus! {

/// An Avro Schema. It describes all _physical_ and _logical_ types.
#[derive(Debug, PartialEq, Hash)]
pub enum Schema {
    /// A null type
    Null,
    /// Boolean (physically represented as a single byte)
    Boolean,
    /// 32 bit signed integer (physically a zigzag encoded variable number of bytes)
    Int(Option<IntLogical>),
    /// 64 bit signed integer (physically a zigzag encoded variable number of bytes)
    Long(Option<LongLogical>),
    /// 32 bit float (physically represented as 4 bytes in little endian)
    Float,
    /// 64 bit float (physically represented as 8 bytes in little endian)
    Double,
    /// variable length bytes (physically a zigzag encoded length followed by that many bytes)
    Bytes(Option<BytesLogical>),
    /// variable length utf8 (physically a zigzag encoded length followed by that many bytes)
    String(Option<StringLogical>),
    /// Record
    Record(Record),
    /// Enum with a known number of variants
    Enum(Enum),
    /// Array of a uniform type with N entries
    Array(Box<Schema>),
    /// A map String -> type
    Mapping(Box<Schema>),
    /// A union of a heterogeneous number of types
    Union(Vec<Schema>),
    /// A fixed number of bytes
    Fixed(Fixed),
}

/// Order of a [`Field`].
#[derive(Debug, Clone, Copy, PartialEq, Eq, Structural, Hash)]
pub enum Order {
    /// Ascending order
    Ascending,
    /// Descending order
    Descending,
    /// Order is to be ignored
    Ignore,
}

/// An Avro field.
#[derive(Debug, PartialEq, Hash)]
pub struct Field {
    /// Its name
    pub name: String,
    /// Its optional documentation
    pub doc: Option<String>,
    /// Its Schema
    pub schema: Schema,
    /// Its default value
    pub default: Option<Schema>,
    /// Its optional order
    pub order: Option<Order>,
    /// Its aliases
    pub aliases: Vec<String>,
}

/// Struct to hold data from a [`Schema::Record`].
#[derive(Debug, PartialEq, Hash)]
pub struct Record {
    /// Its name
    pub name: String,
    /// Its optional namespace
    pub namespace: Option<String>,
    /// Its optional documentation
    pub doc: Option<String>,
    /// Its aliases
    pub aliases: Vec<String>,
    /// Its children fields
    pub fields: Vec<Field>,
}

/// Struct to hold data from a [`Schema::Fixed`].
#[derive(Debug, PartialEq, Hash)]
pub struct Fixed {
    /// Its name
    pub name: String,
    /// Its optional namespace
    pub namespace: Option<String>,
    /// Its optional documentation
    pub doc: Option<String>,
    /// Its aliases
    pub aliases: Vec<String>,
    /// Its size
    pub size: usize,
    /// Its optional logical type
    pub logical: Option<FixedLogical>,
}

/// Struct to hold data from a [`Schema::Enum`].
#[derive(Debug, PartialEq, Hash)]
pub struct Enum {
    /// Its name
    pub name: String,
    /// Its optional namespace
    pub namespace: Option<String>,
    /// Its aliases
    pub aliases: Vec<String>,
    /// Its optional documentation
    pub doc: Option<String>,
    /// Its set of symbols
    pub symbols: Vec<String>,
    /// Its default symbol
    pub default: Option<String>,
}

/// Enum of all logical types of [`Schema::Int`]
#[derive(Debug, Clone, Copy, PartialEq, Eq, Structural, Hash)]
pub enum IntLogical {
    /// A date
    Date,
    /// A time
    Time,
}

/// Enum of all logical types of [`Schema::Long`]
#[derive(Debug, Clone, Copy, PartialEq, Eq, Structural, Hash)]
pub enum LongLogical {
    /// A time
    Time,
    /// A timestamp
    TimestampMillis,
    /// A timestamp
    TimestampMicros,
    /// A timestamp without timezone
    LocalTimestampMillis,
    /// A timestamp without timezone
    LocalTimestampMicros,
}

/// Enum of all logical types of [`Schema::String`]
#[derive(Debug, Clone, Copy, PartialEq, Eq, Structural, Hash)]
pub enum StringLogical {
    /// A UUID
    Uuid,
}

/// Enum of all logical types of [`Schema::Fixed`]
#[derive(Debug, Clone, Copy, PartialEq, Eq, Structural, Hash)]
pub enum FixedLogical {
    /// A decimal, with its precision and scale
    Decimal(usize, usize),
    /// A duration
    Duration,
}

/// Enum of all logical types of [`Schema::Bytes`]
#[derive(Debug, Clone, Copy, PartialEq, Eq, Structural, Hash)]
pub enum BytesLogical {
    /// A decimal, with its precision and scale
    Decimal(usize, usize),
}

/// What a [`Schema`] is, with its texts as sequences of characters and its
/// lists as sequences.
pub enum SchemaView {
    /// The null type
    Null,
    /// Boolean
    Boolean,
    /// 32 bit signed integer, with its logical type
    Int(Option<IntLogical>),
    /// 64 bit signed integer, with its logical type
    Long(Option<LongLogical>),
    /// 32 bit float
    Float,
    /// 64 bit float
    Double,
    /// Bytes, with their logical type
    Bytes(Option<BytesLogical>),
    /// Text, with its logical type
    String(Option<StringLogical>),
    /// A record
    Record(RecordView),
    /// An enum
    Enum(EnumView),
    /// An array, by the schema of its items
    Array(Box<SchemaView>),
    /// A map, by the schema of its values
    Mapping(Box<SchemaView>),
    /// A union, by the schemas of its members in their order
    Union(Seq<SchemaView>),
    /// A fixed
    Fixed(FixedView),
}

/// What a [`Field`] is: field by field what the [`Field`] holds.
pub struct FieldView {
    pub name: Seq<char>,
    pub doc: Option<Seq<char>>,
    pub schema: SchemaView,
    pub default: Option<SchemaView>,
    pub order: Option<Order>,
    pub aliases: Seq<Seq<char>>,
}

/// What a [`Record`] is: field by field what the [`Record`] holds.
pub struct RecordView {
    pub name: Seq<char>,
    pub namespace: Option<Seq<char>>,
    pub doc: Option<Seq<char>>,
    pub aliases: Seq<Seq<char>>,
    pub fields: Seq<FieldView>,
}

/// What a [`Fixed`] is: field by field what the [`Fixed`] holds.
pub struct FixedView {
    pub name: Seq<char>,
    pub namespace: Option<Seq<char>>,
    pub doc: Option<Seq<char>>,
    pub aliases: Seq<Seq<char>>,
    pub size: usize,
    pub logical: Option<FixedLogical>,
}

/// What an [`Enum`] is: field by field what the [`Enum`] holds.
pub struct EnumView {
    pub name: Seq<char>,
    pub namespace: Option<Seq<char>>,
    pub aliases: Seq<Seq<char>>,
    pub doc: Option<Seq<char>>,
    pub symbols: Seq<Seq<char>>,
    pub default: Option<Seq<char>>,
}

/// The characters of an optional text.
pub open spec fn text_option_view(text: Option<String>) -> Option<Seq<char>> {
    match text {
        Some(t) => Some(t@),
        None => None,
    }
}

/// The characters of each text of a list.
pub open spec fn texts_view(texts: Vec<String>) -> Seq<Seq<char>> {
    Seq::new(texts@.len(), |i: int| texts@[i]@)
}

/// The model of a schema.
pub open spec fn schema_view(schema: Schema) -> SchemaView
    decreases schema,
{
    match schema {
        Schema::Null => SchemaView::Null,
        Schema::Boolean => SchemaView::Boolean,
        Schema::Int(logical) => SchemaView::Int(logical),
        Schema::Long(logical) => SchemaView::Long(logical),
        Schema::Float => SchemaView::Float,
        Schema::Double => SchemaView::Double,
        Schema::Bytes(logical) => SchemaView::Bytes(logical),
        Schema::String(logical) => SchemaView::String(logical),
        Schema::Record(record) => SchemaView::Record(record_view(record)),
        Schema::Enum(enum_) => SchemaView::Enum(enum_@),
        Schema::Array(item) => SchemaView::Array(Box::new(schema_view(*item))),
        Schema::Mapping(value) => SchemaView::Mapping(Box::new(schema_view(*value))),
        Schema::Union(members) => SchemaView::Union(schemas_view(members)),
        Schema::Fixed(fixed) => SchemaView::Fixed(fixed@),
    }
}

/// The models of the schemas of a list.
pub open spec fn schemas_view(schemas: Vec<Schema>) -> Seq<SchemaView>
    decreases schemas,
{
    Seq::new(
        schemas@.len(),
        |i: int|
            if 0 <= i < schemas@.len() {
                schema_view(schemas@[i])
            } else {
                SchemaView::Null
            },
    )
}

/// The model of a field.
pub open spec fn field_view(field: Field) -> FieldView
    decreases field,
{
    FieldView {
        name: field.name@,
        doc: text_option_view(field.doc),
        schema: schema_view(field.schema),
        default: match field.default {
            Some(schema) => Some(schema_view(schema)),
            None => None,
        },
        order: field.order,
        aliases: texts_view(field.aliases),
    }
}

/// The models of the fields of a list.
pub open spec fn fields_view(fields: Vec<Field>) -> Seq<FieldView>
    decreases fields,
{
    Seq::new(
        fields@.len(),
        |i: int|
            if 0 <= i < fields@.len() {
                field_view(fields@[i])
            } else {
                arbitrary()
            },
    )
}

/// The model of a record.
pub open spec fn record_view(record: Record) -> RecordView
    decreases record,
{
    RecordView {
        name: record.name@,
        namespace: text_option_view(record.namespace),
        doc: text_option_view(record.doc),
        aliases: texts_view(record.aliases),
        fields: fields_view(record.fields),
    }
}

impl View for Schema {
    type V = SchemaView;

    open spec fn view(&self) -> SchemaView {
        schema_view(*self)
    }
}

impl View for Field {
    type V = FieldView;

    open spec fn view(&self) -> FieldView {
        field_view(*self)
    }
}

impl View for Record {
    type V = RecordView;

    open spec fn view(&self) -> RecordView {
        record_view(*self)
    }
}

impl View for Fixed {
    type V = FixedView;

    open spec fn view(&self) -> FixedView {
        FixedView {
            name: self.name@,
            namespace: text_option_view(self.namespace),
            doc: text_option_view(self.doc),
            aliases: texts_view(self.aliases),
            size: self.size,
            logical: self.logical,
        }
    }
}

impl View for Enum {
    type V = EnumView;

    open spec fn view(&self) -> EnumView {
        EnumView {
            name: self.name@,
            namespace: text_option_view(self.namespace),
            aliases: texts_view(self.aliases),
            doc: text_option_view(self.doc),
            symbols: texts_view(self.symbols),
            default: text_option_view(self.default),
        }
    }
}

/// Copies an optional text.
pub fn clone_text_option(text: &Option<String>) -> (copy: Option<String>)
    ensures
        text_option_view(copy) == text_option_view(*text),
{
    match text {
        Some(t) => Some(t.clone()),
        None => None,
    }
}

/// Copies a list of texts.
pub fn clone_texts(texts: &Vec<String>) -> (copy: Vec<String>)
    ensures
        texts_view(copy) == texts_view(*texts),
{
    let mut copy: Vec<String> = Vec::new();
    let mut i: usize = 0;
    while i < texts.len()
        invariant
            i <= texts@.len(),
            copy@.len() == i,
            forall|k: int| 0 <= k < i ==> copy@[k]@ == texts@[k]@,
        decreases texts@.len() - i,
    {
        copy.push(texts[i].clone());
        i += 1;
    }
    assert(texts_view(copy) =~= texts_view(*texts));
    copy
}

/// Copies a schema.
pub fn clone_schema(schema: &Schema) -> (copy: Schema)
    ensures
        copy@ == schema@,
    decreases schema,
{
    match schema {
        Schema::Null => Schema::Null,
        Schema::Boolean => Schema::Boolean,
        Schema::Int(logical) => Schema::Int(*logical),
        Schema::Long(logical) => Schema::Long(*logical),
        Schema::Float => Schema::Float,
        Schema::Double => Schema::Double,
        Schema::Bytes(logical) => Schema::Bytes(*logical),
        Schema::String(logical) => Schema::String(*logical),
        Schema::Record(record) => Schema::Record(clone_record(record)),
        Schema::Enum(enum_) => Schema::Enum(enum_.clone()),
        Schema::Array(item) => Schema::Array(Box::new(clone_schema(item))),
        Schema::Mapping(value) => Schema::Mapping(Box::new(clone_schema(value))),
        Schema::Union(members) => Schema::Union(clone_schemas(members)),
        Schema::Fixed(fixed) => Schema::Fixed(fixed.clone()),
    }
}

/// Copies a list of schemas.
pub fn clone_schemas(schemas: &Vec<Schema>) -> (copy: Vec<Schema>)
    ensures
        schemas_view(copy) == schemas_view(*schemas),
    decreases schemas,
{
    let mut copy: Vec<Schema> = Vec::new();
    let mut i: usize = 0;
    while i < schemas.len()
        invariant
            i <= schemas@.len(),
            copy@.len() == i,
            forall|k: int| 0 <= k < i ==> schema_view(copy@[k]) == schema_view(schemas@[k]),
        decreases schemas@.len() - i,
    {
        copy.push(clone_schema(&schemas[i]));
        i += 1;
    }
    assert(schemas_view(copy) =~= schemas_view(*schemas));
    copy
}

/// Copies a field.
pub fn clone_field(field: &Field) -> (copy: Field)
    ensures
        copy@ == field@,
    decreases field,
{
    Field {
        name: field.name.clone(),
        doc: clone_text_option(&field.doc),
        schema: clone_schema(&field.schema),
        default: match &field.default {
            Some(schema) => Some(clone_schema(schema)),
            None => None,
        },
        order: field.order,
        aliases: clone_texts(&field.aliases),
    }
}

/// Copies a record.
pub fn clone_record(record: &Record) -> (copy: Record)
    ensures
        copy@ == record@,
    decreases record,
{
    let mut fields: Vec<Field> = Vec::new();
    let mut i: usize = 0;
    while i < record.fields.len()
        invariant
            i <= record.fields@.len(),
            fields@.len() == i,
            forall|k: int| 0 <= k < i ==> field_view(fields@[k]) == field_view(record.fields@[k]),
        decreases record.fields@.len() - i,
    {
        fields.push(clone_field(&record.fields[i]));
        i += 1;
    }
    assert(fields_view(fields) =~= fields_view(record.fields));
    Record {
        name: record.name.clone(),
        namespace: clone_text_option(&record.namespace),
        doc: clone_text_option(&record.doc),
        aliases: clone_texts(&record.aliases),
        fields,
    }
}

impl Clone for Schema {
    fn clone(&self) -> (copy: Self)
        ensures
            copy@ == self@,
    {
        clone_schema(self)
    }
}

impl Clone for Field {
    fn clone(&self) -> (copy: Self)
        ensures
            copy@ == self@,
    {
        clone_field(self)
    }
}

impl Clone for Record {
    fn clone(&self) -> (copy: Self)
        ensures
            copy@ == self@,
    {
        clone_record(self)
    }
}

impl Clone for Fixed {
    fn clone(&self) -> (copy: Self)
        ensures
            copy@ == self@,
    {
        Fixed {
            name: self.name.clone(),
            namespace: clone_text_option(&self.namespace),
            doc: clone_text_option(&self.doc),
            aliases: clone_texts(&self.aliases),
            size: self.size,
            logical: self.logical,
        }
    }
}

impl Clone for Enum {
    fn clone(&self) -> (copy: Self)
        ensures
            copy@ == self@,
    {
        Enum {
            name: self.name.clone(),
            namespace: clone_text_option(&self.namespace),
            aliases: clone_texts(&self.aliases),
            doc: clone_text_option(&self.doc),
            symbols: clone_texts(&self.symbols),
            default: clone_text_option(&self.default),
        }
    }
}

impl From<Enum> for Schema {
    fn from(enum_: Enum) -> (schema: Self) {
        Schema::Enum(enum_)
    }
}

impl FromSpecImpl<Enum> for Schema {
    open spec fn obeys_from_spec() -> bool {
        true
    }

    open spec fn from_spec(enum_: Enum) -> Self {
        Schema::Enum(enum_)
    }
}

impl From<Record> for Schema {
    fn from(record: Record) -> (schema: Self) {
        Schema::Record(record)
    }
}

impl FromSpecImpl<Record> for Schema {
    open spec fn obeys_from_spec() -> bool {
        true
    }

    open spec fn from_spec(record: Record) -> Self {
        Schema::Record(record)
    }
}

impl From<Fixed> for Schema {
    fn from(fixed: Fixed) -> (schema: Self) {
        Schema::Fixed(fixed)
    }
}

impl FromSpecImpl<Fixed> for Schema {
    open spec fn obeys_from_spec() -> bool {
        true
    }

    open spec fn from_spec(fixed: Fixed) -> Self {
        Schema::Fixed(fixed)
    }
}

impl Field {
    /// Returns a new [`Field`] without a doc, default, order or aliases
    pub fn new(name: &str, schema: Schema) -> (field: Self)
        ensures
            field@ == (FieldView {
                name: name@,
                doc: None,
                schema: schema@,
                default: None,
                order: None,
                aliases: Seq::empty(),
            }),
    {
        let field = Self {
            name: name.to_owned(),
            doc: None,
            schema,
            default: None,
            order: None,
            aliases: Vec::new(),
        };
        assert(field@.aliases =~= Seq::empty());
        field
    }
}

impl Record {
    /// Returns a new [`Record`] without a namespace, doc or aliases
    pub fn new(name: &str, fields: Vec<Field>) -> (record: Self)
        ensures
            record@ == (RecordView {
                name: name@,
                namespace: None,
                doc: None,
                aliases: Seq::empty(),
                fields: fields_view(fields),
            }),
    {
        let record = Self {
            name: name.to_owned(),
            namespace: None,
            doc: None,
            fields,
            aliases: Vec::new(),
        };
        assert(record@.aliases =~= Seq::empty());
        record
    }
}

impl Fixed {
    /// Returns a new [`Fixed`] without a namespace, doc or aliases
    pub fn new(name: &str, size: usize) -> (fixed: Self)
        ensures
            fixed@ == (FixedView {
                name: name@,
                namespace: None,
                doc: None,
                aliases: Seq::empty(),
                size,
                logical: None,
            }),
    {
        let fixed = Self {
            name: name.to_owned(),
            namespace: None,
            doc: None,
            size,
            aliases: Vec::new(),
            logical: None,
        };
        assert(fixed@.aliases =~= Seq::empty());
        fixed
    }
}

impl Enum {
    /// Returns a minimal [`Enum`].
    pub fn new(name: &str, symbols: Vec<String>) -> (enum_: Self)
        ensures
            enum_@ == (EnumView {
                name: name@,
                namespace: None,
                aliases: Seq::empty(),
                doc: None,
                symbols: texts_view(symbols),
                default: None,
            }),
    {
        let enum_ = Self {
            name: name.to_owned(),
            namespace: None,
            doc: None,
            symbols,
            aliases: Vec::new(),
            default: None,
        };
        assert(enum_@.aliases =~= Seq::empty());
        enum_
    }
}

} // verus!
