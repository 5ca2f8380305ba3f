use avro_schema::schema::{
    from_slice, from_str, parse_field, parse_schema, serialize_field, serialize_schema,
    to_string, BytesLogical, Enum, Field, Fixed, FixedLogical, IntLogical, Json, Key,
    LongLogical, Number, Order, Record, Schema, SchemaError, StringLogical,
};

fn text(s: &str) -> Json {
    Json::String(s.to_string())
}

fn object(entries: Vec<(&str, Json)>) -> Json {
    Json::Object(
        entries
            .into_iter()
            .map(|(key, value)| (key.to_string(), value))
            .collect(),
    )
}

#[test]
fn null_has_three_shapes() {
    assert_eq!(from_str(r#""null""#), Ok(Schema::Null));
    assert_eq!(from_str(r#"{"type":"null"}"#), Ok(Schema::Null));
    assert_eq!(from_str(r#"{"type": null}"#), Ok(Schema::Null));
    assert_eq!(from_str("null"), Ok(Schema::Null));
}

#[test]
fn a_union_has_two_shapes() {
    let expected = Schema::Union(vec![Schema::Null, Schema::String(None)]);
    assert_eq!(from_str(r#"["null","string"]"#), Ok(expected.clone()));
    assert_eq!(
        from_str(r#"[{"type":"null"},{"type":"string"}]"#),
        Ok(expected)
    );
}

#[test]
fn an_unknown_logical_type_is_passed_over() {
    assert_eq!(
        from_str(r#"{"type":"int","logicalType":"no-such-thing"}"#),
        Ok(Schema::Int(None))
    );
    assert_eq!(
        from_str(r#"{"type":"long","logicalType":"date"}"#),
        Ok(Schema::Long(None))
    );
    assert_eq!(
        from_str(r#"{"type":"string","logicalType":"decimal"}"#),
        Ok(Schema::String(None))
    );
    assert_eq!(
        from_str(r#"{"type":"bytes","logicalType":"uuid"}"#),
        Ok(Schema::Bytes(None))
    );
    assert_eq!(
        from_str(r#"{"type":"boolean","logicalType":7}"#),
        Ok(Schema::Boolean)
    );
    assert_eq!(
        from_str(r#"{"type":"fixed","name":"f","size":2,"logicalType":"other"}"#),
        Ok(Schema::Fixed(Fixed::new("f", 2)))
    );
}

#[test]
fn logical_types_are_read() {
    assert_eq!(
        from_str(r#"{"type":"int","logicalType":"date"}"#),
        Ok(Schema::Int(Some(IntLogical::Date)))
    );
    assert_eq!(
        from_str(r#"{"type":"int","logicalType":"time-millis"}"#),
        Ok(Schema::Int(Some(IntLogical::Time)))
    );
    assert_eq!(
        from_str(r#"{"type":"long","logicalType":"time-micros"}"#),
        Ok(Schema::Long(Some(LongLogical::Time)))
    );
    assert_eq!(
        from_str(r#"{"type":"long","logicalType":"timestamp-micros"}"#),
        Ok(Schema::Long(Some(LongLogical::TimestampMicros)))
    );
    assert_eq!(
        from_str(r#"{"type":"long","logicalType":"local-timestamp-millis"}"#),
        Ok(Schema::Long(Some(LongLogical::LocalTimestampMillis)))
    );
    assert_eq!(
        from_str(r#"{"type":"long","logicalType":"local-timestamp-micros"}"#),
        Ok(Schema::Long(Some(LongLogical::LocalTimestampMicros)))
    );
    assert_eq!(
        from_str(r#"{"type":"string","logicalType":"uuid"}"#),
        Ok(Schema::String(Some(StringLogical::Uuid)))
    );
    assert_eq!(
        from_str(r#"{"type":"bytes","logicalType":"decimal","precision":9,"scale":2}"#),
        Ok(Schema::Bytes(Some(BytesLogical::Decimal(9, 2))))
    );
    let mut fixed = Fixed::new("d", 12);
    fixed.logical = Some(FixedLogical::Duration);
    assert_eq!(
        from_str(r#"{"type":"fixed","name":"d","size":12,"logicalType":"duration"}"#),
        Ok(Schema::Fixed(fixed))
    );
    let mut fixed = Fixed::new("m", 8);
    fixed.logical = Some(FixedLogical::Decimal(5, 0));
    assert_eq!(
        from_str(r#"{"type":"fixed","name":"m","size":8,"logicalType":"decimal","precision":5}"#),
        Ok(Schema::Fixed(fixed))
    );
}

#[test]
fn a_decimal_needs_its_precision() {
    assert_eq!(
        from_str(r#"{"type":"bytes","logicalType":"decimal"}"#),
        Err(SchemaError::Missing(Key::Precision))
    );
    assert_eq!(
        from_str(r#"{"type":"fixed","name":"m","size":8,"logicalType":"decimal","scale":1}"#),
        Err(SchemaError::Missing(Key::Precision))
    );
    assert_eq!(
        from_str(r#"{"type":"bytes","logicalType":"decimal","precision":-1}"#),
        Err(SchemaError::Invalid(Key::Precision))
    );
    assert_eq!(
        from_str(r#"{"type":"bytes","logicalType":"decimal","precision":1,"scale":0.5}"#),
        Err(SchemaError::Invalid(Key::Scale))
    );
}

#[test]
fn each_error_has_an_input() {
    assert_eq!(from_str("{"), Err(SchemaError::Syntax));
    assert_eq!(from_str(r#""null" 1"#), Err(SchemaError::Syntax));
    assert_eq!(from_str("{}"), Err(SchemaError::Missing(Key::Type)));
    assert_eq!(
        from_str(r#"{"type":1}"#),
        Err(SchemaError::Invalid(Key::Type))
    );
    assert_eq!(
        from_str(r#"{"type":{"type":"int"}}"#),
        Err(SchemaError::Invalid(Key::Type))
    );
    assert_eq!(from_str(r#""integer""#), Err(SchemaError::UnknownPrimitive));
    assert_eq!(from_str(r#""record""#), Err(SchemaError::UnknownPrimitive));
    assert_eq!(
        from_str(r#"{"type":"tuple"}"#),
        Err(SchemaError::UnknownType)
    );
    assert_eq!(from_str("true"), Err(SchemaError::NotASchema));
    assert_eq!(from_str("12"), Err(SchemaError::NotASchema));
    assert_eq!(from_str(r#"["int", 1.5]"#), Err(SchemaError::NotASchema));
    assert_eq!(
        from_str(r#"{"type":"record","name":"r","fields":["int"]}"#),
        Err(SchemaError::NotAField)
    );
    assert_eq!(
        from_str(r#"{"type":"record","name":"r","fields":[{"name":"a","type":"int","order":"up"}]}"#),
        Err(SchemaError::UnknownOrder)
    );
}

#[test]
fn required_keys_are_required() {
    assert_eq!(
        from_str(r#"{"type":"enum","symbols":[]}"#),
        Err(SchemaError::Missing(Key::Name))
    );
    assert_eq!(
        from_str(r#"{"type":"enum","name":"e"}"#),
        Err(SchemaError::Missing(Key::Symbols))
    );
    assert_eq!(
        from_str(r#"{"type":"map"}"#),
        Err(SchemaError::Missing(Key::Values))
    );
    assert_eq!(
        from_str(r#"{"type":"array"}"#),
        Err(SchemaError::Missing(Key::Items))
    );
    assert_eq!(
        from_str(r#"{"type":"record","name":"r"}"#),
        Err(SchemaError::Missing(Key::Fields))
    );
    assert_eq!(
        from_str(r#"{"type":"record","fields":[]}"#),
        Err(SchemaError::Missing(Key::Name))
    );
    assert_eq!(
        from_str(r#"{"type":"fixed","name":"f"}"#),
        Err(SchemaError::Missing(Key::Size))
    );
    assert_eq!(
        from_str(r#"{"type":"fixed","size":1}"#),
        Err(SchemaError::Missing(Key::Name))
    );
    assert_eq!(
        from_str(r#"{"type":"record","name":"r","fields":[{"type":"int"}]}"#),
        Err(SchemaError::Missing(Key::Name))
    );
    assert_eq!(
        from_str(r#"{"type":"record","name":"r","fields":[{"name":"a"}]}"#),
        Err(SchemaError::Missing(Key::Type))
    );
}

#[test]
fn wrong_shapes_are_told() {
    assert_eq!(
        from_str(r#"{"type":"enum","name":1,"symbols":[]}"#),
        Err(SchemaError::Invalid(Key::Name))
    );
    assert_eq!(
        from_str(r#"{"type":"enum","name":"e","namespace":[],"symbols":[]}"#),
        Err(SchemaError::Invalid(Key::Namespace))
    );
    assert_eq!(
        from_str(r#"{"type":"enum","name":"e","aliases":"a","symbols":[]}"#),
        Err(SchemaError::Invalid(Key::Aliases))
    );
    assert_eq!(
        from_str(r#"{"type":"enum","name":"e","aliases":["a",1],"symbols":[]}"#),
        Err(SchemaError::Invalid(Key::Aliases))
    );
    assert_eq!(
        from_str(r#"{"type":"enum","name":"e","doc":true,"symbols":[]}"#),
        Err(SchemaError::Invalid(Key::Doc))
    );
    assert_eq!(
        from_str(r#"{"type":"enum","name":"e","symbols":{}}"#),
        Err(SchemaError::Invalid(Key::Symbols))
    );
    assert_eq!(
        from_str(r#"{"type":"enum","name":"e","symbols":[],"default":1}"#),
        Err(SchemaError::Invalid(Key::Default))
    );
    assert_eq!(
        from_str(r#"{"type":"record","name":"r","fields":{}}"#),
        Err(SchemaError::Invalid(Key::Fields))
    );
    assert_eq!(
        from_str(r#"{"type":"fixed","name":"f","size":"1"}"#),
        Err(SchemaError::Invalid(Key::Size))
    );
    assert_eq!(
        from_str(r#"{"type":"fixed","name":"f","size":-1}"#),
        Err(SchemaError::Invalid(Key::Size))
    );
    assert_eq!(
        from_str(r#"{"type":"int","logicalType":1}"#),
        Err(SchemaError::Invalid(Key::LogicalType))
    );
    assert_eq!(
        from_str(r#"{"type":"record","name":"r","fields":[{"name":"a","type":"int","order":1}]}"#),
        Err(SchemaError::Invalid(Key::Order))
    );
}

#[test]
fn the_first_thing_wrong_is_told() {
    assert_eq!(
        from_str(r#"{"type":"fixed","name":1}"#),
        Err(SchemaError::Missing(Key::Size))
    );
    assert_eq!(
        from_str(r#"["int", "nothing", true]"#),
        Err(SchemaError::UnknownPrimitive)
    );
    assert_eq!(
        from_str(r#"{"type":"map","values":{"type":"array"}}"#),
        Err(SchemaError::Missing(Key::Items))
    );
}

#[test]
fn of_two_entries_with_one_key_the_later_counts() {
    assert_eq!(
        from_str(r#"{"type":"int","type":"long"}"#),
        Ok(Schema::Long(None))
    );
    let json = object(vec![("type", text("int")), ("type", text("boolean"))]);
    assert_eq!(parse_schema(&json), Ok(Schema::Boolean));
}

#[test]
fn a_schema_is_read_from_a_json_value() {
    let json = object(vec![
        ("type", text("fixed")),
        ("name", text("f")),
        ("size", Json::Number(Number::PosInt(3))),
    ]);
    assert_eq!(parse_schema(&json), Ok(Schema::Fixed(Fixed::new("f", 3))));
    let json = object(vec![
        ("type", text("fixed")),
        ("name", text("f")),
        ("size", Json::Number(Number::NegInt(3))),
    ]);
    assert_eq!(parse_schema(&json), Ok(Schema::Fixed(Fixed::new("f", 3))));
    let json = object(vec![
        ("type", text("fixed")),
        ("name", text("f")),
        ("size", Json::Number(Number::Fraction)),
    ]);
    assert_eq!(parse_schema(&json), Err(SchemaError::Invalid(Key::Size)));
    assert_eq!(parse_schema(&Json::Null), Ok(Schema::Null));
    assert_eq!(parse_schema(&Json::Bool(true)), Err(SchemaError::NotASchema));
    assert_eq!(
        parse_schema(&Json::Array(vec![text("int"), Json::Null])),
        Ok(Schema::Union(vec![Schema::Int(None), Schema::Null]))
    );
}

#[test]
fn a_field_is_read_with_all_its_parts() {
    let expected = Field {
        name: "a".to_string(),
        doc: Some("the a".to_string()),
        schema: Schema::Long(None),
        default: Some(Schema::Null),
        order: Some(Order::Descending),
        aliases: vec!["b".to_string(), "c".to_string()],
    };
    let json = object(vec![
        ("name", text("a")),
        ("doc", text("the a")),
        ("type", text("long")),
        ("default", Json::Null),
        ("order", text("descending")),
        ("aliases", Json::Array(vec![text("b"), text("c")])),
    ]);
    assert_eq!(parse_field(&json), Ok(expected.clone()));
    assert_eq!(parse_field(&serialize_field(&expected)), Ok(expected));
    assert_eq!(parse_field(&text("a")), Err(SchemaError::NotAField));
}

#[test]
fn orders_are_read() {
    for (name, order) in [
        ("ascending", Order::Ascending),
        ("descending", Order::Descending),
        ("ignore", Order::Ignore),
    ] {
        let json = object(vec![
            ("name", text("a")),
            ("type", text("int")),
            ("order", text(name)),
        ]);
        assert_eq!(parse_field(&json).map(|field| field.order), Ok(Some(order)));
    }
}

#[test]
fn primitives_are_written_as_strings() {
    assert_eq!(to_string(&Schema::Null), r#""null""#);
    assert_eq!(to_string(&Schema::Boolean), r#""boolean""#);
    assert_eq!(to_string(&Schema::Int(None)), r#""int""#);
    assert_eq!(to_string(&Schema::Long(None)), r#""long""#);
    assert_eq!(to_string(&Schema::Float), r#""float""#);
    assert_eq!(to_string(&Schema::Double), r#""double""#);
    assert_eq!(to_string(&Schema::Bytes(None)), r#""bytes""#);
    assert_eq!(to_string(&Schema::String(None)), r#""string""#);
}

#[test]
fn logical_types_are_written_as_objects() {
    assert_eq!(
        to_string(&Schema::Int(Some(IntLogical::Date))),
        r#"{"type":"int","logicalType":"date"}"#
    );
    assert_eq!(
        to_string(&Schema::Int(Some(IntLogical::Time))),
        r#"{"type":"int","logicalType":"time-millis"}"#
    );
    assert_eq!(
        to_string(&Schema::Long(Some(LongLogical::TimestampMillis))),
        r#"{"type":"long","logicalType":"timestamp-millis"}"#
    );
    assert_eq!(
        to_string(&Schema::String(Some(StringLogical::Uuid))),
        r#"{"type":"string","logicalType":"uuid"}"#
    );
    assert_eq!(
        to_string(&Schema::Bytes(Some(BytesLogical::Decimal(10, 0)))),
        r#"{"type":"bytes","logicalType":"decimal","precision":10}"#
    );
    assert_eq!(
        to_string(&Schema::Bytes(Some(BytesLogical::Decimal(10, 3)))),
        r#"{"type":"bytes","logicalType":"decimal","precision":10,"scale":3}"#
    );
}

#[test]
fn complex_types_are_written_in_their_order() {
    assert_eq!(
        to_string(&Schema::Array(Box::new(Schema::Long(None)))),
        r#"{"type":"array","items":"long"}"#
    );
    assert_eq!(
        to_string(&Schema::Mapping(Box::new(Schema::Bytes(None)))),
        r#"{"type":"map","values":"bytes"}"#
    );
    assert_eq!(
        to_string(&Schema::Union(vec![Schema::Null, Schema::Double])),
        r#"["null","double"]"#
    );
    assert_eq!(to_string(&Schema::Union(vec![])), "[]");
    let mut enum_ = Enum::new("E", vec!["A".to_string(), "B".to_string()]);
    assert_eq!(
        to_string(&Schema::Enum(enum_.clone())),
        r#"{"type":"enum","name":"E","symbols":["A","B"]}"#
    );
    enum_.namespace = Some("n".to_string());
    enum_.aliases = vec!["F".to_string()];
    enum_.doc = Some("d".to_string());
    enum_.default = Some("A".to_string());
    assert_eq!(
        to_string(&Schema::Enum(enum_)),
        r#"{"type":"enum","name":"E","namespace":"n","aliases":["F"],"doc":"d","default":"A","symbols":["A","B"]}"#
    );
    let mut fixed = Fixed::new("F", 16);
    assert_eq!(
        to_string(&Schema::Fixed(fixed.clone())),
        r#"{"type":"fixed","name":"F","size":16}"#
    );
    fixed.logical = Some(FixedLogical::Decimal(4, 1));
    fixed.doc = Some("d".to_string());
    assert_eq!(
        to_string(&Schema::Fixed(fixed.clone())),
        r#"{"type":"fixed","name":"F","doc":"d","size":16,"logicalType":"decimal","precision":4,"scale":1}"#
    );
    fixed.logical = Some(FixedLogical::Duration);
    assert_eq!(
        to_string(&Schema::Fixed(fixed)),
        r#"{"type":"fixed","name":"F","doc":"d","size":16,"logicalType":"duration"}"#
    );
}

#[test]
fn a_record_is_written_with_its_fields() {
    let mut field = Field::new("a", Schema::Int(None));
    field.aliases = vec!["b".to_string()];
    field.doc = Some("d".to_string());
    field.default = Some(Schema::Null);
    field.order = Some(Order::Ignore);
    let mut record = Record::new("R", vec![field, Field::new("value", Schema::Float)]);
    record.namespace = Some("n".to_string());
    assert_eq!(
        to_string(&Schema::Record(record)),
        r#"{"type":"record","name":"R","namespace":"n","fields":[{"name":"a","aliases":["b"],"doc":"d","default":"null","type":"int","order":"ignore"},{"name":"value","type":"float"}]}"#
    );
}

#[test]
fn text_is_escaped_and_read_back() {
    let name = "a \"quoted\" \\ name\nwith\tcontrol \u{1} and \u{e9}\u{4e2d}\u{1f600}";
    let schema = Schema::Enum(Enum::new(name, vec![name.to_string()]));
    let written = to_string(&schema);
    assert!(written.contains(r#"\"quoted\""#));
    assert!(written.contains(r#"\n"#));
    assert_eq!(from_str(&written), Ok(schema.clone()));
    assert_eq!(from_slice(written.as_bytes()), Ok(schema));
}

#[test]
fn every_schema_is_read_back_from_its_json_value() {
    let mut field = Field::new("a", Schema::Int(Some(IntLogical::Date)));
    field.default = Some(Schema::Union(vec![Schema::Null]));
    field.order = Some(Order::Ascending);
    field.aliases = vec!["x".to_string()];
    field.doc = Some("doc".to_string());
    let mut record = Record::new("R", vec![field.clone(), Field::new("b", Schema::Double)]);
    record.aliases = vec!["S".to_string(), "T".to_string()];
    record.doc = Some("d".to_string());
    let mut fixed = Fixed::new("F", 0);
    fixed.logical = Some(FixedLogical::Decimal(1, 0));
    fixed.namespace = Some("".to_string());
    let schemas = vec![
        Schema::Null,
        Schema::Bytes(Some(BytesLogical::Decimal(0, 7))),
        Schema::String(Some(StringLogical::Uuid)),
        Schema::Long(Some(LongLogical::LocalTimestampMicros)),
        Schema::Record(record.clone()),
        Schema::Fixed(fixed),
        Schema::Enum(Enum::new("", vec![])),
        Schema::Mapping(Box::new(Schema::Array(Box::new(Schema::Record(record))))),
        Schema::Union(vec![Schema::Union(vec![]), Schema::Float]),
    ];
    for schema in schemas {
        assert_eq!(parse_schema(&serialize_schema(&schema)), Ok(schema.clone()));
        assert_eq!(from_str(&to_string(&schema)), Ok(schema));
    }
}

#[test]
fn a_schema_is_copied_whole() {
    let mut record = Record::new("R", vec![Field::new("b", Schema::Double)]);
    record.aliases = vec!["S".to_string()];
    let schema = Schema::Union(vec![
        Schema::Record(record),
        Schema::Enum(Enum::new("E", vec!["A".to_string()])),
        Schema::Fixed(Fixed::new("F", 1)),
        Schema::Array(Box::new(Schema::Mapping(Box::new(Schema::Null)))),
    ]);
    assert_eq!(schema.clone(), schema);
}

#[test]
fn named_types_become_schemas() {
    let enum_ = Enum::new("E", vec!["A".to_string()]);
    let record = Record::new("R", vec![]);
    let fixed = Fixed::new("F", 4);
    assert_eq!(Schema::from(enum_.clone()), Schema::Enum(enum_.clone()));
    assert_eq!(Schema::from(record.clone()), Schema::Record(record.clone()));
    assert_eq!(Schema::from(fixed.clone()), Schema::Fixed(fixed.clone()));
    let schema: Schema = fixed.into();
    assert_eq!(to_string(&schema), r#"{"type":"fixed","name":"F","size":4}"#);
}
