use data_encoding::ser::Serializer;
use data_encoding::{
    from_bytes, to_bytes, to_bytes_with, Array, BsonSerializer, ByteWriter, Decoder,
    DecoderConfig, Document, EncoderConfig, ObjectId, SerializeError, Value,
};

fn doc_of(fields: Vec<(&str, Value)>) -> Document {
    let mut doc = Document::new();
    for (name, value) in fields {
        doc.insert(name, value);
    }
    doc
}

fn lenient() -> Decoder {
    Decoder::new(DecoderConfig {
        max_document_bytes: 16 * 1024 * 1024,
        reject_deprecated: false,
        strict_utf8: false,
    })
}

#[test]
fn test_empty_document_is_five_bytes() {
    let bytes = to_bytes(&Document::new()).unwrap();
    assert_eq!(bytes, vec![0x05, 0x00, 0x00, 0x00, 0x00]);
    assert_eq!(from_bytes(&bytes).unwrap(), Document::new());
}

#[test]
fn test_single_int32() {
    let doc = doc_of(vec![("a", Value::Int32(1))]);
    let bytes = to_bytes(&doc).unwrap();
    assert_eq!(
        bytes,
        vec![0x0C, 0x00, 0x00, 0x00, 0x10, 0x61, 0x00, 0x01, 0x00, 0x00, 0x00, 0x00]
    );
    assert_eq!(from_bytes(&bytes).unwrap(), doc);
}

#[test]
fn test_nested_document() {
    let inner = doc_of(vec![("y", Value::Boolean(true))]);
    let doc = doc_of(vec![("x", Value::Document(inner.clone()))]);
    let bytes = to_bytes(&doc).unwrap();
    assert_eq!(bytes.len(), 17);
    assert_eq!(&bytes[0..4], &[17, 0, 0, 0]);
    assert_eq!(&bytes[4..7], &[0x03, 0x78, 0x00]);
    assert_eq!(&bytes[7..16], &[0x09, 0x00, 0x00, 0x00, 0x08, 0x79, 0x00, 0x01, 0x00]);
    assert_eq!(bytes[16], 0x00);
    assert_eq!(to_bytes(&inner).unwrap(), bytes[7..16].to_vec());
    assert_eq!(from_bytes(&bytes).unwrap(), doc);
}

#[test]
fn test_array_keys_are_indices() {
    let array = Array::from_vec(vec![Value::Int32(10), Value::Int32(20)]);
    let doc = doc_of(vec![("a", Value::Array(array))]);
    let bytes = to_bytes(&doc).unwrap();
    let expected: Vec<u8> = vec![
        0x1B, 0, 0, 0, // document length 27
        0x04, 0x61, 0x00, // array "a"
        0x13, 0, 0, 0, // inner length 19
        0x10, 0x30, 0x00, 10, 0, 0, 0, // "0": 10
        0x10, 0x31, 0x00, 20, 0, 0, 0, // "1": 20
        0x00, 0x00,
    ];
    assert_eq!(bytes, expected);
    assert_eq!(from_bytes(&bytes).unwrap(), doc);
}

#[test]
fn test_array_round_trip_keeps_order_and_length() {
    let mut items = Vec::new();
    for i in 0..25 {
        items.push(Value::Int32(100 - i));
    }
    let doc = doc_of(vec![("list", Value::Array(Array::from_vec(items.clone())))]);
    let back = from_bytes(&to_bytes(&doc).unwrap()).unwrap();
    let array = back.get("list").unwrap().as_array().unwrap();
    assert_eq!(array.len(), 25);
    for i in 0..25 {
        assert_eq!(array.get(i), Some(&items[i]));
    }
}

#[test]
fn test_truncated_input_is_an_invalid_document() {
    let bytes = vec![0x05, 0x00, 0x00, 0x00];
    assert!(matches!(from_bytes(&bytes), Err(SerializeError::InvalidDocument(_))));
    let mut bytes = to_bytes(&doc_of(vec![("a", Value::Int32(1))])).unwrap();
    bytes.pop();
    assert!(matches!(from_bytes(&bytes), Err(SerializeError::InvalidDocument(_))));
    assert!(matches!(from_bytes(&[]), Err(SerializeError::InvalidDocument(_))));
}

#[test]
fn test_missing_terminator_is_an_invalid_document() {
    let bytes = vec![0x05, 0x00, 0x00, 0x00, 0x01];
    assert!(matches!(from_bytes(&bytes), Err(SerializeError::InvalidDocument(_))));
}

#[test]
fn test_trailing_bytes_are_an_invalid_document() {
    let bytes = vec![0x05, 0x00, 0x00, 0x00, 0x00, 0x00];
    assert_eq!(
        from_bytes(&bytes),
        Err(SerializeError::InvalidDocument("bytes follow the document".to_string()))
    );
}

#[test]
fn test_invalid_utf8_in_string_is_a_utf8_error() {
    let bytes = vec![
        0x0F, 0, 0, 0, 0x02, 0x61, 0x00, 0x03, 0, 0, 0, 0xFF, 0xFE, 0x00, 0x00,
    ];
    assert!(matches!(from_bytes(&bytes), Err(SerializeError::Utf8(_))));
    let doc = lenient().decode(&bytes).unwrap();
    assert_eq!(doc.get("a").unwrap().as_str(), Some("\u{FFFD}\u{FFFD}"));
}

#[test]
fn test_deprecated_values_are_not_encoded() {
    let id = ObjectId::from_bytes([1; 12]);
    let cases = vec![
        (Value::Undefined, "Undefined is deprecated.".to_string()),
        (
            Value::DBPointer { collection: "users".to_string(), id },
            "DBPointer is deprecated. Collection: users, ID: 010101010101010101010101"
                .to_string(),
        ),
        (
            Value::Symbol("sym".to_string()),
            "Symbol is deprecated. Symbol: sym".to_string(),
        ),
        (
            Value::JavaScriptCodeWithScope {
                code: "0123456789abc".to_string(),
                scope: doc_of(vec![("n", Value::Int32(1))]),
            },
            "JavaScript code with scope is deprecated. Code: 0123456789, Scope: {\"n\": 1}"
                .to_string(),
        ),
    ];
    for (value, message) in cases {
        let doc = doc_of(vec![("v", value)]);
        assert_eq!(to_bytes(&doc), Err(SerializeError::Deprecated(message)));
    }
}

#[test]
fn test_long_code_is_cut_with_three_dots() {
    let code: String = "x".repeat(101);
    let doc = doc_of(vec![(
        "v",
        Value::JavaScriptCodeWithScope { code, scope: Document::new() },
    )]);
    assert_eq!(
        to_bytes(&doc),
        Err(SerializeError::Deprecated(
            "JavaScript code with scope is deprecated. Code: xxxxxxxxxx..., Scope: {}"
                .to_string()
        ))
    );
}

#[test]
fn test_field_name_with_nul_is_an_invalid_value() {
    let mut doc = Document::new();
    doc.insert("a\0b", Value::Int32(1));
    assert_eq!(
        to_bytes(&doc),
        Err(SerializeError::InvalidValue("field name holds a NUL byte".to_string()))
    );
}

#[test]
fn test_regex_with_nul_is_an_invalid_value() {
    let doc = doc_of(vec![(
        "r",
        Value::RegularExpression { pattern: "a\0".to_string(), options: "".to_string() },
    )]);
    assert!(matches!(to_bytes(&doc), Err(SerializeError::InvalidValue(_))));
}

#[test]
fn test_declared_length_over_the_maximum_is_a_buffer_overflow() {
    let doc = doc_of(vec![("a", Value::String("0123456789".to_string()))]);
    let bytes = to_bytes(&doc).unwrap();
    let decoder = Decoder::new(DecoderConfig {
        max_document_bytes: 8,
        reject_deprecated: true,
        strict_utf8: true,
    });
    assert_eq!(decoder.decode(&bytes), Err(SerializeError::BufferOverflow));
    let exact = Decoder::new(DecoderConfig {
        max_document_bytes: bytes.len() as u32,
        reject_deprecated: true,
        strict_utf8: true,
    });
    assert_eq!(exact.decode(&bytes), Ok(doc));
}

#[test]
fn test_document_over_the_maximum_is_not_encoded() {
    let doc = doc_of(vec![("a", Value::Int32(1))]);
    let small = EncoderConfig { max_document_bytes: 11, reject_deprecated: true };
    assert_eq!(to_bytes_with(&doc, small), Err(SerializeError::BufferOverflow));
    let exact = EncoderConfig { max_document_bytes: 12, reject_deprecated: true };
    assert_eq!(to_bytes_with(&doc, exact).unwrap().len(), 12);
}

#[test]
fn test_lenient_encoder_is_not_supported() {
    let config = EncoderConfig { max_document_bytes: 100, reject_deprecated: false };
    assert!(matches!(
        to_bytes_with(&Document::new(), config),
        Err(SerializeError::NotSupported(_))
    ));
}

#[test]
fn test_nan_round_trips_bit_for_bit() {
    let patterns: Vec<u64> = vec![
        f64::NAN.to_bits(),
        0x7ff8_0000_0000_0001,
        0xfff0_0000_dead_beef,
        f64::INFINITY.to_bits(),
        f64::NEG_INFINITY.to_bits(),
        (-0.0f64).to_bits(),
        1.5f64.to_bits(),
    ];
    for bits in patterns {
        let doc = doc_of(vec![("d", Value::Double(bits))]);
        let bytes = to_bytes(&doc).unwrap();
        assert_eq!(&bytes[7..15], &bits.to_le_bytes());
        let back = from_bytes(&bytes).unwrap();
        assert_eq!(back.get("d").unwrap().as_f64(), Some(bits));
    }
}

#[test]
fn test_every_kind_round_trips() {
    let inner = doc_of(vec![("k", Value::from("v")), ("n", Value::Null)]);
    let doc = doc_of(vec![
        ("double", Value::Double(3.25f64.to_bits())),
        ("string", Value::from("h\u{e9}llo \u{1F600}")),
        ("empty", Value::from("")),
        ("document", Value::from(inner.clone())),
        ("array", Value::from(Array::from_vec(vec![Value::from(1), Value::from(inner)]))),
        ("binary", Value::Binary { subtype: 0x80, bytes: vec![0, 1, 2, 255] }),
        ("id", Value::from(ObjectId::from_bytes([7; 12]))),
        ("yes", Value::from(true)),
        ("no", Value::from(false)),
        ("date", Value::UTCDateTime(-1)),
        ("null", Value::Null),
        ("regex", Value::RegularExpression { pattern: "^a".to_string(), options: "im".to_string() }),
        ("code", Value::JavaScriptCode("f()".to_string())),
        ("i32", Value::Int32(i32::MIN)),
        ("stamp", Value::Timestamp(-2)),
        ("i64", Value::Int64(i64::MAX)),
        ("u64", Value::UInt64(u64::MAX)),
        ("min", Value::MinKey),
        ("max", Value::MaxKey),
    ]);
    let bytes = to_bytes(&doc).unwrap();
    assert_eq!(bytes.len() as u32, u32::from_le_bytes([bytes[0], bytes[1], bytes[2], bytes[3]]));
    assert_eq!(*bytes.last().unwrap(), 0);
    let back = from_bytes(&bytes).unwrap();
    assert_eq!(back, doc);
    assert_eq!(to_bytes(&back).unwrap(), bytes);
}

#[test]
fn test_payload_layouts() {
    let doc = doc_of(vec![("s", Value::from(""))]);
    assert_eq!(
        to_bytes(&doc).unwrap(),
        vec![13, 0, 0, 0, 0x02, 0x73, 0x00, 0x01, 0x00, 0x00, 0x00, 0x00, 0x00]
    );
    let doc = doc_of(vec![("b", Value::Binary { subtype: 5, bytes: vec![0xAA, 0xBB] })]);
    assert_eq!(
        to_bytes(&doc).unwrap(),
        vec![15, 0, 0, 0, 0x05, 0x62, 0x00, 2, 0, 0, 0, 5, 0xAA, 0xBB, 0x00]
    );
    let doc = doc_of(vec![("t", Value::Timestamp(-1))]);
    assert_eq!(
        to_bytes(&doc).unwrap(),
        vec![16, 0, 0, 0, 0x11, 0x74, 0x00, 255, 255, 255, 255, 255, 255, 255, 255, 0x00]
    );
    let doc = doc_of(vec![("d", Value::UTCDateTime(258))]);
    assert_eq!(
        to_bytes(&doc).unwrap(),
        vec![16, 0, 0, 0, 0x09, 0x64, 0x00, 2, 1, 0, 0, 0, 0, 0, 0, 0x00]
    );
    let doc = doc_of(vec![(
        "r",
        Value::RegularExpression { pattern: "a".to_string(), options: "i".to_string() },
    )]);
    assert_eq!(
        to_bytes(&doc).unwrap(),
        vec![12, 0, 0, 0, 0x0B, 0x72, 0x00, 0x61, 0x00, 0x69, 0x00, 0x00]
    );
    let doc = doc_of(vec![("m", Value::MinKey), ("x", Value::MaxKey)]);
    assert_eq!(
        to_bytes(&doc).unwrap(),
        vec![11, 0, 0, 0, 0xFF, 0x6D, 0x00, 0x7F, 0x78, 0x00, 0x00]
    );
}

#[test]
fn test_decoder_rejects_malformed_values() {
    // boolean that is neither 0 nor 1
    let bytes = vec![9, 0, 0, 0, 0x08, 0x62, 0x00, 0x02, 0x00];
    assert!(matches!(from_bytes(&bytes), Err(SerializeError::InvalidValue(_))));
    // unknown tag
    let bytes = vec![8, 0, 0, 0, 0x20, 0x62, 0x00, 0x00];
    assert_eq!(
        from_bytes(&bytes),
        Err(SerializeError::InvalidDocument("unknown element type 32".to_string()))
    );
    // string length zero
    let bytes = vec![12, 0, 0, 0, 0x02, 0x73, 0x00, 0, 0, 0, 0, 0x00];
    assert!(matches!(from_bytes(&bytes), Err(SerializeError::InvalidDocument(_))));
    // string that runs past the document
    let bytes = vec![13, 0, 0, 0, 0x02, 0x73, 0x00, 9, 0, 0, 0, 0x61, 0x00];
    assert!(matches!(from_bytes(&bytes), Err(SerializeError::InvalidDocument(_))));
    // field name without terminator
    let bytes = vec![7, 0, 0, 0, 0x0A, 0x61, 0x62];
    assert!(matches!(from_bytes(&bytes), Err(SerializeError::InvalidDocument(_))));
    // declared length below five
    let bytes = vec![4, 0, 0, 0, 0x00];
    assert!(matches!(from_bytes(&bytes), Err(SerializeError::InvalidDocument(_))));
    // array whose keys do not count up from 0
    let bytes = vec![
        20, 0, 0, 0, 0x04, 0x61, 0x00, 12, 0, 0, 0, 0x10, 0x31, 0x00, 1, 0, 0, 0, 0x00, 0x00,
    ];
    assert_eq!(
        from_bytes(&bytes),
        Err(SerializeError::InvalidValue("array keys do not count up from 0".to_string()))
    );
}

#[test]
fn test_deprecated_tags_on_decode() {
    // {"u": undefined}
    let bytes = vec![8, 0, 0, 0, 0x06, 0x75, 0x00, 0x00];
    assert_eq!(
        from_bytes(&bytes),
        Err(SerializeError::Deprecated("deprecated element type 6".to_string()))
    );
    let doc = lenient().decode(&bytes).unwrap();
    assert_eq!(doc.get("u"), Some(&Value::Undefined));
    // {"s": symbol "ab"}
    let bytes = vec![15, 0, 0, 0, 0x0E, 0x73, 0x00, 3, 0, 0, 0, 0x61, 0x62, 0x00, 0x00];
    assert_eq!(
        from_bytes(&bytes),
        Err(SerializeError::Deprecated("deprecated element type 14".to_string()))
    );
    let doc = lenient().decode(&bytes).unwrap();
    assert_eq!(doc.get("s"), Some(&Value::Symbol("ab".to_string())));
    // {"c": code "x" with scope {}}
    let bytes = vec![
        23, 0, 0, 0, 0x0F, 0x63, 0x00, 15, 0, 0, 0, 2, 0, 0, 0, 0x78, 0x00, 5, 0, 0, 0, 0x00,
        0x00,
    ];
    let doc = lenient().decode(&bytes).unwrap();
    assert_eq!(
        doc.get("c"),
        Some(&Value::JavaScriptCodeWithScope { code: "x".to_string(), scope: Document::new() })
    );
    // {"p": pointer into "c" with id 1..12}
    let mut bytes = vec![26, 0, 0, 0, 0x0C, 0x70, 0x00, 2, 0, 0, 0, 0x63, 0x00];
    bytes.extend_from_slice(&[1, 2, 3, 4, 5, 6, 7, 8, 9, 10, 11, 12]);
    bytes.push(0);
    let doc = lenient().decode(&bytes).unwrap();
    assert_eq!(
        doc.get("p"),
        Some(&Value::DBPointer {
            collection: "c".to_string(),
            id: ObjectId::from_bytes([1, 2, 3, 4, 5, 6, 7, 8, 9, 10, 11, 12]),
        })
    );
}

#[test]
fn test_nesting_is_capped() {
    let mut doc = Document::new();
    for _ in 0..99 {
        let mut outer = Document::new();
        outer.insert("d", Value::Document(doc));
        doc = outer;
    }
    let bytes = to_bytes(&doc).unwrap();
    assert_eq!(from_bytes(&bytes).unwrap(), doc);
    let mut outer = Document::new();
    outer.insert("d", Value::Document(doc));
    assert_eq!(
        to_bytes(&outer),
        Err(SerializeError::InvalidValue("documents are nested too deeply".to_string()))
    );
}

#[test]
fn test_decoder_caps_nesting() {
    let mut bytes: Vec<u8> = vec![5, 0, 0, 0, 0];
    for _ in 0..100 {
        let length = (bytes.len() + 8) as u32;
        let mut outer = length.to_le_bytes().to_vec();
        outer.extend_from_slice(&[0x03, 0x64, 0x00]);
        outer.extend_from_slice(&bytes);
        outer.push(0);
        bytes = outer;
    }
    assert_eq!(
        from_bytes(&bytes),
        Err(SerializeError::InvalidDocument("documents are nested too deeply".to_string()))
    );
}

#[test]
fn test_duplicate_names_are_kept_in_parse_order() {
    let bytes = vec![
        19, 0, 0, 0, 0x10, 0x61, 0x00, 1, 0, 0, 0, 0x10, 0x61, 0x00, 2, 0, 0, 0, 0x00,
    ];
    let doc = from_bytes(&bytes).unwrap();
    assert_eq!(doc.len(), 2);
    assert_eq!(doc.get("a"), Some(&Value::Int32(1)));
    assert_eq!(to_bytes(&doc).unwrap(), bytes);
}

#[test]
fn test_serializer_visitor_protocol() {
    let mut serializer = BsonSerializer::new(ByteWriter::new());
    serializer.start_document().unwrap();
    serializer.serialize_field_name("a").unwrap();
    Value::Int32(1).serialize(&mut serializer).unwrap();
    assert_eq!(serializer.current_position().unwrap(), 11);
    serializer.end_document().unwrap();
    let bytes = serializer.into_inner().into_bytes();
    assert_eq!(
        bytes,
        vec![0x0C, 0x00, 0x00, 0x00, 0x10, 0x61, 0x00, 0x01, 0x00, 0x00, 0x00, 0x00]
    );
}

#[test]
fn test_serializer_end_without_start() {
    let mut serializer = BsonSerializer::new(ByteWriter::new());
    assert_eq!(
        serializer.end_document(),
        Err(SerializeError::InvalidDocument("no document is open".to_string()))
    );
    let mut serializer = BsonSerializer::new(ByteWriter::new());
    assert_eq!(
        serializer.write_document_length(),
        Err(SerializeError::InvalidDocument("no document is open".to_string()))
    );
}

#[test]
fn test_serializer_value_without_a_name() {
    let mut serializer = BsonSerializer::new(ByteWriter::new());
    serializer.serialize_i32(-2).unwrap();
    serializer.serialize_boolean(true).unwrap();
    serializer.serialize_null().unwrap();
    assert_eq!(
        serializer.into_inner().into_bytes(),
        vec![0x10, 0xFE, 0xFF, 0xFF, 0xFF, 0x08, 0x01, 0x0A]
    );
}

#[test]
fn test_writer_seek_and_overwrite() {
    let mut writer = ByteWriter::new();
    writer.write_all(&[1, 2, 3, 4, 5]);
    assert_eq!(writer.position(), 5);
    writer.seek(1).unwrap();
    writer.write_u8(9);
    writer.write_u32(0x0403_0201);
    assert_eq!(writer.position(), 6);
    assert_eq!(writer.as_slice(), &[1, 9, 1, 2, 3, 4]);
    assert!(matches!(writer.seek(7), Err(SerializeError::Io(_))));
    assert_eq!(writer.position(), 6);
    writer.seek(0).unwrap();
    writer.write_i32(-1);
    writer.write_i64(-2);
    writer.write_u64(1);
    writer.write_f64(1.0f64.to_bits());
    let mut expected = vec![255, 255, 255, 255, 254, 255, 255, 255, 255, 255, 255, 255];
    expected.extend_from_slice(&1u64.to_le_bytes());
    expected.extend_from_slice(&1.0f64.to_le_bytes());
    assert_eq!(writer.into_bytes(), expected);
}

#[test]
fn test_error_texts() {
    assert_eq!(SerializeError::BufferOverflow.to_string(), "Buffer Overflow");
    assert_eq!(SerializeError::NotImplemented.to_string(), "Not Implemented");
    assert_eq!(SerializeError::NotSupported("x".to_string()).to_string(), "Not Supported");
    assert_eq!(SerializeError::Io("gone".to_string()).to_string(), "I/O error: gone");
    assert_eq!(
        SerializeError::InvalidValue("bad".to_string()).to_string(),
        "Invalid value: bad"
    );
    assert_eq!(
        SerializeError::Utf8("bad".to_string()).to_string(),
        "Invalid UTF-8 string: bad"
    );
    assert_eq!(
        SerializeError::InvalidDocument("bad".to_string()).to_string(),
        "Invalid BSON document: bad"
    );
    assert_eq!(
        SerializeError::Deprecated("old".to_string()).to_string(),
        "Deprecated: old"
    );
}
