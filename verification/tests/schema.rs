use avro_schema::schema::Schema::{
    Array, Boolean, Bytes, Double, Float, Int, Long, Mapping, Null, Union,
};
use avro_schema::schema::{
    from_str, to_string, BytesLogical, Enum, Field, Fixed, LongLogical, Record, Schema,
    SchemaError,
};

fn cases() -> Vec<(&'static str, Schema)> {
    vec![
        (r#"null"#, Null),
        (r#"{"type": "null"}"#, Null),
        (r#"{"type": null}"#, Null),
        (r#""null""#, Null),
        (r#""boolean""#, Boolean),
        (r#"{"type": "boolean"}"#, Boolean),
        (r#""string""#, Schema::String(None)),
        (r#"{"type": "string"}"#, Schema::String(None)),
        (r#""bytes""#, Bytes(None)),
        (r#"{"type": "bytes"}"#, Bytes(None)),
        (
            r#"{"type": "bytes", "logicalType": "decimal", "precision": 10}"#,
            Bytes(Some(BytesLogical::Decimal(10, 0))),
        ),
        (r#""int""#, Int(None)),
        (r#"{"type": "int"}"#, Int(None)),
        (r#""long""#, Long(None)),
        (r#"{"type": "long"}"#, Long(None)),
        (
            r#"{"type": "long", "logicalType": "timestamp-millis"}"#,
            Long(Some(LongLogical::TimestampMillis)),
        ),
        (r#""float""#, Float),
        (r#"{"type": "float"}"#, Float),
        (r#""double""#, Double),
        (r#"{"type": "double"}"#, Double),
        (
            r#"{"type": "enum", "name": "Test", "symbols": ["A", "B"]}"#,
            Schema::Enum(Enum::new(
                "Test",
                vec!["A".to_string(), "B".to_string()],
            )),
        ),
        (r#"["null", "string"]"#, Union(vec![Null, Schema::String(None)])),
        (
            r#"[{"type": "null"}, {"type": "string"}]"#,
            Union(vec![Null, Schema::String(None)]),
        ),
        (
            r#"{"type": "map", "values": "long"}"#,
            Mapping(Box::new(Long(None))),
        ),
        (
            r#"{
                "type": "map",
                "values": {"type": "enum", "name": "Test", "symbols": ["A", "B"]}
            }"#,
            Mapping(Box::new(Schema::Enum(Enum::new(
                "Test",
                vec!["A".to_string(), "B".to_string()],
            )))),
        ),
        (
            r#"{"type": "array", "items": "long"}"#,
            Array(Box::new(Long(None))),
        ),
        (
            r#"{
                    "type": "array",
                    "items": {"type": "enum", "name": "Test", "symbols": ["A", "B"]}
                }"#,
            Array(Box::new(
                Enum::new("Test", vec!["A".to_string(), "B".to_string()]).into(),
            )),
        ),
        (
            r#"{
                "type":"record",
                "name":"HandshakeResponse",
                "namespace":"org.apache.avro.ipc",
                "fields":[
                    {
                        "name":"match",
                        "type":{
                            "type":"enum",
                            "name":"HandshakeMatch",
                            "symbols":["BOTH", "CLIENT", "NONE"]
                        }
                    },
                    {"name":"serverProtocol", "type":["null", "string"]},
                    {
                        "name":"serverHash",
                        "type":["null", {"name":"MD5", "size":16, "type":"fixed"}]
                    },
                    {
                        "name":"meta",
                        "type":["null", {"type":"map", "values":"bytes"}]
                    }
                ]
            }"#,
            Schema::Record(Record {
                name: "HandshakeResponse".to_string(),
                namespace: Some("org.apache.avro.ipc".to_string()),
                doc: None,
                aliases: vec![],
                fields: vec![
                    Field::new(
                        "match",
                        Enum::new(
                            "HandshakeMatch",
                            vec!["BOTH".to_string(), "CLIENT".to_string(), "NONE".to_string()],
                        )
                        .into(),
                    ),
                    Field::new("serverProtocol", Union(vec![Null, Schema::String(None)])),
                    Field::new(
                        "serverHash",
                        Union(vec![Null, Fixed::new("MD5", 16).into()]),
                    ),
                    Field::new("meta", Union(vec![Null, Mapping(Box::new(Bytes(None)))])),
                ],
            }),
        ),
    ]
}

#[test]
fn test_deserialize() -> Result<(), SchemaError> {
    for (data, expected) in cases() {
        let v: Schema = from_str(data)?;
        assert_eq!(v, expected);
    }
    Ok(())
}

#[test]
fn test_round_trip() -> Result<(), SchemaError> {
    for (_, expected) in cases() {
        let serialized = to_string(&expected);
        let v: Schema = from_str(&serialized)?;
        assert_eq!(expected, v);
    }
    Ok(())
}
