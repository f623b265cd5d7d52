use data_encoding::ser::Serializer;
use data_encoding::{
    to_json, Array, Document, JsonPiece, JsonSerializer, ObjectId, SerializeError, Value,
};

fn render(pieces: &[JsonPiece]) -> String {
    let mut out = String::new();
    for piece in pieces {
        match piece {
            JsonPiece::Text(text) => out.push_str(text),
            JsonPiece::Double(bits) => out.push_str(&f64::from_bits(*bits).to_string()),
        }
    }
    out
}

fn json(doc: &Document, pretty: bool) -> String {
    render(&to_json(doc, pretty).unwrap())
}

fn doc_of(fields: Vec<(&str, Value)>) -> Document {
    let mut doc = Document::new();
    for (name, value) in fields {
        doc.insert(name, value);
    }
    doc
}

#[test]
fn test_json_compact_document() {
    let doc = doc_of(vec![("a", Value::Int32(1)), ("b", Value::from("x"))]);
    assert_eq!(json(&doc, false), "{\"a\": 1,\"b\": \"x\"}");
    assert_eq!(json(&Document::new(), false), "{}");
}

#[test]
fn test_json_pretty_document() {
    let array = Array::from_vec(vec![Value::Int32(1), Value::Int32(2)]);
    let inner = doc_of(vec![("y", Value::Boolean(true))]);
    let doc = doc_of(vec![
        ("a", Value::Int32(1)),
        ("b", Value::Array(array)),
        ("x", Value::Document(inner)),
    ]);
    let expected = "{\n  \"a\": 1,\n  \"b\": [\n    1,\n    2\n  ],\n  \"x\": {\n    \"y\": true\n  }\n}";
    assert_eq!(json(&doc, true), expected);
    assert_eq!(json(&Document::new(), true), "{\n\n}");
}

#[test]
fn test_json_string_escapes() {
    let doc = doc_of(vec![("s", Value::from("a\"b\\c\nd\re\tf\u{1}g\u{1f}h\u{e9}"))]);
    assert_eq!(
        json(&doc, false),
        "{\"s\": \"a\\\"b\\\\c\\nd\\re\\tf\\u0001g\\u001fh\u{e9}\"}"
    );
    let doc = doc_of(vec![("q\"", Value::Null)]);
    assert_eq!(json(&doc, false), "{\"q\\\"\": null}");
}

#[test]
fn test_json_doubles() {
    let doc = doc_of(vec![
        ("f", Value::Double(1.5f64.to_bits())),
        ("n", Value::Double(f64::NAN.to_bits())),
        ("p", Value::Double(f64::INFINITY.to_bits())),
        ("m", Value::Double(f64::NEG_INFINITY.to_bits())),
        ("z", Value::Double((-0.0f64).to_bits())),
    ]);
    let pieces = to_json(&doc, false).unwrap();
    assert!(pieces.contains(&JsonPiece::Double(1.5f64.to_bits())));
    assert!(!pieces.contains(&JsonPiece::Double(f64::NAN.to_bits())));
    assert_eq!(
        render(&pieces),
        "{\"f\": 1.5,\"n\": null,\"p\": null,\"m\": null,\"z\": -0}"
    );
}

#[test]
fn test_json_numbers_and_plain_values() {
    let doc = doc_of(vec![
        ("i", Value::Int32(-7)),
        ("l", Value::Int64(i64::MIN)),
        ("u", Value::UInt64(u64::MAX)),
        ("t", Value::Boolean(true)),
        ("f", Value::Boolean(false)),
        ("n", Value::Null),
    ]);
    assert_eq!(
        json(&doc, false),
        "{\"i\": -7,\"l\": -9223372036854775808,\"u\": 18446744073709551615,\"t\": true,\"f\": false,\"n\": null}"
    );
}

#[test]
fn test_json_extended_forms() {
    let doc = doc_of(vec![("v", Value::ObjectId(ObjectId::from_bytes([0xab; 12])))]);
    assert_eq!(json(&doc, false), "{\"v\": {\"$oid\":\"abababababababababababab\"}}");
    let doc = doc_of(vec![("v", Value::UTCDateTime(-12))]);
    assert_eq!(json(&doc, false), "{\"v\": {\"$date\":{\"$numberLong\":\"-12\"}}}");
    let doc = doc_of(vec![("v", Value::Binary { subtype: 0x80, bytes: vec![1, 0xff] })]);
    assert_eq!(
        json(&doc, false),
        "{\"v\": {\"$binary\":{\"base64\":\"Af8=\",\"subType\":\"80\"}}}"
    );
    let doc = doc_of(vec![("v", Value::from(b"any carnal pleasure.".to_vec()))]);
    assert_eq!(
        json(&doc, false),
        "{\"v\": {\"$binary\":{\"base64\":\"YW55IGNhcm5hbCBwbGVhc3VyZS4=\",\"subType\":\"00\"}}}"
    );
    let doc = doc_of(vec![("v", Value::from(vec![0xfbu8, 0xff, 0xbe]))]);
    assert_eq!(
        json(&doc, false),
        "{\"v\": {\"$binary\":{\"base64\":\"+/++\",\"subType\":\"00\"}}}"
    );
    let doc = doc_of(vec![("v", Value::from(Vec::<u8>::new()))]);
    assert_eq!(
        json(&doc, false),
        "{\"v\": {\"$binary\":{\"base64\":\"\",\"subType\":\"00\"}}}"
    );
    let doc = doc_of(vec![("v", Value::from(vec![0x4du8]))]);
    assert_eq!(
        json(&doc, false),
        "{\"v\": {\"$binary\":{\"base64\":\"TQ==\",\"subType\":\"00\"}}}"
    );
    let doc = doc_of(vec![(
        "v",
        Value::RegularExpression { pattern: "a\"".to_string(), options: "i".to_string() },
    )]);
    assert_eq!(
        json(&doc, false),
        "{\"v\": {\"$regularExpression\":{\"pattern\":\"a\\\"\",\"options\":\"i\"}}}"
    );
    let doc = doc_of(vec![("v", Value::JavaScriptCode("f()".to_string()))]);
    assert_eq!(json(&doc, false), "{\"v\": {\"$code\":\"f()\"}}");
    let doc = doc_of(vec![("v", Value::Timestamp((5i64 << 32) | 9))]);
    assert_eq!(json(&doc, false), "{\"v\": {\"$timestamp\":{\"t\":5,\"i\":9}}}");
    let doc = doc_of(vec![("v", Value::Timestamp(-1))]);
    assert_eq!(
        json(&doc, false),
        "{\"v\": {\"$timestamp\":{\"t\":4294967295,\"i\":4294967295}}}"
    );
    let doc = doc_of(vec![("a", Value::MinKey), ("b", Value::MaxKey)]);
    assert_eq!(json(&doc, false), "{\"a\": {\"$minKey\":1},\"b\": {\"$maxKey\":1}}");
}

#[test]
fn test_json_deprecated_values_fail() {
    let doc = doc_of(vec![("a", Value::Int32(1)), ("v", Value::Symbol("s".to_string()))]);
    assert_eq!(
        to_json(&doc, false),
        Err(SerializeError::Deprecated("Symbol is deprecated. Symbol: s".to_string()))
    );
    let doc = doc_of(vec![("v", Value::Undefined)]);
    assert_eq!(
        to_json(&doc, true),
        Err(SerializeError::Deprecated("Undefined is deprecated.".to_string()))
    );
}

#[test]
fn test_json_nesting_is_capped() {
    let mut value = Value::Array(Array::new());
    for _ in 0..99 {
        value = Value::Array(Array::from_vec(vec![value]));
    }
    let doc = doc_of(vec![("a", value)]);
    assert_eq!(
        to_json(&doc, false),
        Err(SerializeError::InvalidValue("documents are nested too deeply".to_string()))
    );
}

#[test]
fn test_json_serializer_visitor_protocol() {
    let mut serializer = JsonSerializer::new(true);
    serializer.start_document().unwrap();
    serializer.serialize_field_name("a").unwrap();
    Value::Int32(1).serialize(&mut serializer).unwrap();
    serializer.write_separator();
    serializer.serialize_field_name("b").unwrap();
    serializer.serialize_string("x").unwrap();
    serializer.end_document().unwrap();
    assert_eq!(
        render(&serializer.into_pieces()),
        "{\n  \"a\": 1,\n  \"b\": \"x\"\n}"
    );
    let mut serializer = JsonSerializer::new(false);
    assert_eq!(
        serializer.end_document(),
        Err(SerializeError::InvalidDocument("no document is open".to_string()))
    );
    serializer.write_indent();
    serializer.write_newline();
    serializer.write_separator();
    assert_eq!(render(&serializer.into_pieces()), ",");
}
