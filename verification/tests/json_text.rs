use avro_schema::read::ByteReader;
use avro_schema::schema::json::{find, put, str_eq};
use avro_schema::schema::text::{is_writable, json_from_slice, json_to_string};
use avro_schema::schema::{Json, Number};

fn text(s: &str) -> Json {
    Json::String(s.to_string())
}

fn entry(key: &str, value: Json) -> (String, Json) {
    (key.to_string(), value)
}

#[test]
fn json_text_is_read_as_a_value() {
    assert_eq!(json_from_slice(b"null"), Some(Json::Null));
    assert_eq!(json_from_slice(b" true "), Some(Json::Bool(true)));
    assert_eq!(json_from_slice(b"17"), Some(Json::Number(Number::PosInt(17))));
    assert_eq!(json_from_slice(b"0"), Some(Json::Number(Number::PosInt(0))));
    assert_eq!(
        json_from_slice(b"18446744073709551615"),
        Some(Json::Number(Number::PosInt(u64::MAX)))
    );
    assert_eq!(json_from_slice(b"-3"), Some(Json::Number(Number::NegInt(-3))));
    assert_eq!(json_from_slice(b"1.5"), Some(Json::Number(Number::Fraction)));
    assert_eq!(json_from_slice(b"1e30"), Some(Json::Number(Number::Fraction)));
    assert_eq!(
        json_from_slice("\"a\u{e9}\"".as_bytes()),
        Some(text("a\u{e9}"))
    );
    assert_eq!(
        json_from_slice(br#"[1, "a", [], {}]"#),
        Some(Json::Array(vec![
            Json::Number(Number::PosInt(1)),
            text("a"),
            Json::Array(vec![]),
            Json::Object(vec![]),
        ]))
    );
}

#[test]
fn the_entries_of_an_object_keep_their_order() {
    assert_eq!(
        json_from_slice(br#"{"b": 1, "a": {"z": null, "y": false}, "c": []}"#),
        Some(Json::Object(vec![
            entry("b", Json::Number(Number::PosInt(1))),
            entry(
                "a",
                Json::Object(vec![entry("z", Json::Null), entry("y", Json::Bool(false))])
            ),
            entry("c", Json::Array(vec![])),
        ]))
    );
}

#[test]
fn text_that_is_not_json_is_not_read() {
    for text in [&b""[..], b"{", b"[1,]", b"nul", b"1 2", b"{\"a\"}", b"\xff"] {
        assert_eq!(json_from_slice(text), None);
    }
}

#[test]
fn a_value_is_written_as_text() {
    let value = Json::Object(vec![
        entry("b", Json::Number(Number::PosInt(1))),
        entry("a", Json::Array(vec![Json::Null, Json::Bool(true), text("x\"y")])),
        entry("c", Json::Number(Number::NegInt(-7))),
    ]);
    assert!(is_writable(&value));
    assert_eq!(
        json_to_string(&value),
        Some(r#"{"b":1,"a":[null,true,"x\"y"],"c":-7}"#.to_string())
    );
    assert_eq!(
        json_from_slice(json_to_string(&value).unwrap().as_bytes()),
        Some(value)
    );
}

#[test]
fn what_cannot_be_handed_on_is_not_written() {
    let twice = Json::Object(vec![entry("a", Json::Null), entry("a", Json::Bool(true))]);
    let inside = Json::Array(vec![Json::Object(vec![entry("k", twice.clone())])]);
    let fraction = Json::Array(vec![Json::Number(Number::Fraction)]);
    let positive = Json::Number(Number::NegInt(0));
    for value in [twice, inside, fraction, positive] {
        assert!(!is_writable(&value));
        assert_eq!(json_to_string(&value), None);
    }
}

#[test]
fn the_last_entry_with_a_key_is_found() {
    let mut entries = vec![];
    put(&mut entries, "a", Json::Null);
    put(&mut entries, "b", Json::Bool(true));
    put(&mut entries, "a", Json::Bool(false));
    assert_eq!(entries.len(), 3);
    assert_eq!(find(&entries, "a"), Some(2));
    assert_eq!(find(&entries, "b"), Some(1));
    assert_eq!(find(&entries, "c"), None);
    assert_eq!(find(&vec![], "a"), None);
}

#[test]
fn texts_are_compared_whole() {
    assert!(str_eq("", ""));
    assert!(str_eq("type", "type"));
    assert!(!str_eq("type", "typ"));
    assert!(!str_eq("type", "typf"));
    assert!(!str_eq("\u{e9}", "e"));
    assert!(str_eq("\u{1f600}", "\u{1f600}"));
}

#[test]
fn a_reader_hands_out_what_it_is_asked_for() {
    let bytes = [1u8, 2, 3, 4, 5];
    let mut reader = ByteReader::new(&bytes);
    assert_eq!(reader.len(), 5);
    assert_eq!(reader.read_exact(0), Some(&[][..]));
    assert_eq!(reader.read_exact(2), Some(&[1, 2][..]));
    assert_eq!(reader.remaining(), &[3, 4, 5]);
    assert_eq!(reader.read_exact(4), None);
    assert_eq!(reader.len(), 3);
    assert_eq!(reader.read_exact(3), Some(&[3, 4, 5][..]));
    assert_eq!(reader.len(), 0);
    assert_eq!(reader.read_exact(1), None);
}
