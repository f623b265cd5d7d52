use data_encoding::types::{Array, Document, ObjectId, Timestamp, UTCDateTime, Value};

// -------------------------------------
//          Document tests
// -------------------------------------

#[test]
fn test_document_new() {
    let document = Document::new();
    assert!(document.is_empty());
}

#[test]
fn test_document_new_with_capacity() {
    let document = Document::new_with_capacity(10);
    assert!(document.is_empty());
    assert!(document.capacity() == 10);
}

#[test]
fn test_document_basic_operations() {
    let mut doc = Document::new();

    doc.insert("key1", Value::from(1));
    doc.insert("key2", Value::from("value2"));
    doc.insert("key3", Value::from_f64_bits(3.0f64.to_bits()));

    assert_eq!(doc.len(), 3);
    assert_eq!(doc.get("key1"), Some(&Value::from(1)));
    assert_eq!(doc.get("key2"), Some(&Value::from("value2")));
    assert!(!doc.contains_key("key4"));

    doc.remove("key1");
    assert_eq!(doc.len(), 2);
    assert_eq!(doc.get("key1"), None);

    doc.clear();
    assert!(doc.is_empty());
}

#[test]
fn test_document_insert_keeps_order_and_replaces_in_place() {
    let mut doc = Document::new();
    assert_eq!(doc.insert("b", Value::from(1)), None);
    assert_eq!(doc.insert("a", Value::from(2)), None);
    assert_eq!(doc.insert("b", Value::from(3)), Some(Value::from(1)));
    let fields = doc.iter();
    assert_eq!(fields.len(), 2);
    assert_eq!(fields[0].0.as_str(), "b");
    assert_eq!(fields[0].1, &Value::from(3));
    assert_eq!(fields[1].0.as_str(), "a");
    assert_eq!(fields[1].1, &Value::from(2));
}

#[test]
fn test_document_get_mut_changes_in_place() {
    let mut doc = Document::new();
    doc.insert("n", Value::from(1));
    if let Some(value) = doc.get_mut("n") {
        *value = Value::from(2);
    }
    assert_eq!(doc.get("n"), Some(&Value::from(2)));
    assert!(doc.get_mut("m").is_none());
}

#[test]
fn test_document_remove_takes_every_field_of_the_name() {
    let mut doc = Document::new();
    doc.push("k".to_string(), Value::from(1));
    doc.push("x".to_string(), Value::from(2));
    doc.push("k".to_string(), Value::from(3));
    assert_eq!(doc.get("k"), Some(&Value::from(1)));
    assert_eq!(doc.remove("k"), Some(Value::from(1)));
    assert_eq!(doc.len(), 1);
    assert!(!doc.contains_key("k"));
    assert_eq!(doc.remove("k"), None);
}

#[test]
fn test_document_clone_is_deep() {
    let mut inner = Document::new();
    inner.insert("y", Value::from(true));
    let mut doc = Document::new();
    doc.insert("x", Value::from(inner));
    let copy = doc.clone();
    assert_eq!(copy, doc);
    doc.clear();
    assert_eq!(copy.len(), 1);
}

// -------------------------------------
//            Array tests
// -------------------------------------

#[test]
fn test_array_new() {
    let array = Array::new();
    assert!(array.is_empty());
}

#[test]
fn test_array_basic_operations() {
    let mut array = Array::new();

    array.push(Value::from(1));
    array.push(Value::from("value2"));
    array.push(Value::from_f64_bits(3.0f64.to_bits()));

    assert_eq!(array.len(), 3);
    assert_eq!(array.get(0), Some(&Value::from(1)));
    assert_eq!(array.get(1), Some(&Value::from("value2")));
    assert_eq!(array.get(2), Some(&Value::from_f64_bits(3.0f64.to_bits())));

    array.pop();
    assert_eq!(array.len(), 2);
    assert_eq!(array.get(2), None);

    array.clear();
    assert!(array.is_empty());
}

#[test]
fn test_array_from_vec_and_iter() {
    let array = Array::from_vec(vec![Value::from(1), Value::from(2)]);
    assert_eq!(array.len(), 2);
    let items = array.iter();
    assert_eq!(items, vec![&Value::from(1), &Value::from(2)]);
    assert_eq!(array.into_vec(), vec![Value::from(1), Value::from(2)]);
}

#[test]
fn test_array_and_document_conversions() {
    let array = Array::from(vec![Value::from(1)]);
    assert_eq!(array.len(), 1);
    let items: Vec<Value> = array.into();
    assert_eq!(items, vec![Value::from(1)]);
    let doc = Document::from(vec![("a".to_string(), Value::from(1))]);
    assert_eq!(doc.get("a"), Some(&Value::from(1)));
    let fields: Vec<(String, Value)> = doc.into();
    assert_eq!(fields, vec![("a".to_string(), Value::from(1))]);
    assert!(Array::default().is_empty());
    assert!(Document::default().is_empty());
}

#[test]
fn test_array_get_mut_and_pop() {
    let mut array = Array::from_vec(vec![Value::from(1)]);
    if let Some(value) = array.get_mut(0) {
        *value = Value::from(2);
    }
    assert!(array.get_mut(1).is_none());
    assert_eq!(array.pop(), Some(Value::from(2)));
    assert_eq!(array.pop(), None);
}

// -------------------------------------
//          ObjectId tests
// -------------------------------------

#[test]
fn test_object_id_new() {
    let object_id = ObjectId::new();
    assert_eq!(object_id.as_bytes().len(), 12);
}

#[test]
fn test_object_id_from_bytes() {
    let bytes = [0; 12];
    let object_id = ObjectId::from_bytes(bytes);
    assert_eq!(*object_id.as_bytes(), bytes);
}

#[test]
fn test_object_id_from_str() {
    let object_id_str: &str = "5e4f2f2d7f3d2d2d2d2d2d2d";
    let object_id = ObjectId::from(object_id_str);
    assert_eq!(object_id.to_string(), object_id_str);
}

#[test]
fn test_object_id_into_string() {
    let object_id_str: &str = "5e4f2f2d7f3d2d2d2d2d2d2d";
    let object_id = ObjectId::from(object_id_str);
    let text: String = object_id.to_string();
    assert_eq!(text, object_id_str);
}

#[test]
fn test_object_id_into_vec() {
    let object_id_str: &str = "5e4f2f2d7f3d2d2d2d2d2d2d";
    let object_id = ObjectId::from(object_id_str);
    assert_eq!(object_id.to_vec(), hex::decode(object_id_str).unwrap());
}

#[test]
fn test_object_id_from_hex_accepts_both_cases_and_nothing_else() {
    let lower = ObjectId::from_hex("5e4f2f2d7f3d2d2d2d2d2dab").unwrap();
    let upper = ObjectId::from_hex("5E4F2F2D7F3D2D2D2D2D2DAB").unwrap();
    assert_eq!(lower, upper);
    assert_eq!(lower.as_bytes()[0], 0x5e);
    assert_eq!(lower.as_bytes()[11], 0xab);
    assert_eq!(lower.to_string(), "5e4f2f2d7f3d2d2d2d2d2dab");
    assert_eq!(ObjectId::from_hex("5e4f"), None);
    assert_eq!(ObjectId::from_hex("5e4f2f2d7f3d2d2d2d2d2d2"), None);
    assert_eq!(ObjectId::from_hex("5e4f2f2d7f3d2d2d2d2d2dzz"), None);
    assert_eq!(ObjectId::from_hex(""), None);
}

#[test]
fn test_object_id_random_ids_differ() {
    assert_ne!(ObjectId::new(), ObjectId::new());
}

// -------------------------------------
//          UTCDateTime tests
// -------------------------------------

#[test]
fn test_utc_date_time_now() {
    let utc_date_time = UTCDateTime::now();
    assert!(utc_date_time.as_secs() > 0);
}

#[test]
fn test_utc_date_time_from_secs() {
    let utc_date_time = UTCDateTime::from_secs(1234567890);
    assert_eq!(utc_date_time.as_secs(), 1234567890);
}

#[test]
fn test_utc_date_time_from_i64() {
    let utc_date_time: i64 = 1234567890;
    let utc_date_time = UTCDateTime::from(utc_date_time);
    assert_eq!(utc_date_time.as_secs(), 1234567890);
}

#[test]
fn test_utc_date_time_from_system_time() {
    let system_time = std::time::SystemTime::now();
    let utc_date_time = UTCDateTime::from(system_time);
    assert!(utc_date_time.as_secs() > 0);
}

#[test]
fn test_utc_date_time_from_str() {
    let utc_date_time_str: &str = "1234567890";
    let utc_date_time = UTCDateTime::parse(utc_date_time_str).unwrap();
    assert_eq!(utc_date_time.as_secs(), 1234567890);
}

#[test]
fn test_utc_date_time_into_i64() {
    let utc_date_time = UTCDateTime::from_secs(1234567890);
    let secs: i64 = utc_date_time.into();
    assert_eq!(secs, 1234567890);
}

#[test]
fn test_utc_date_time_into_system_time() {
    let utc_date_time = UTCDateTime::from_secs(1234567890);
    let system_time: std::time::SystemTime = utc_date_time.to_system_time().unwrap();
    assert_eq!(
        system_time,
        std::time::UNIX_EPOCH + std::time::Duration::from_secs(1234567890)
    );
}

#[test]
fn test_utc_date_time_into_string() {
    let utc_date_time = UTCDateTime::from_secs(1234567890);
    assert_eq!(utc_date_time.to_string(), "1234567890");
}

#[test]
fn test_utc_date_time_before_the_epoch() {
    let before = std::time::UNIX_EPOCH - std::time::Duration::from_secs(90);
    let date = UTCDateTime::from_system_time(before);
    assert_eq!(date.as_secs(), -90);
    assert_eq!(date.to_system_time(), Some(before));
    assert_eq!(date.to_string(), "-90");
}

#[test]
fn test_system_time_there_and_back() {
    let counts: Vec<i64> = vec![0, 1, -1, 59, -59, 1234567890, -1234567890, i64::MAX, i64::MIN];
    for secs in counts {
        if let Some(time) = UTCDateTime::from_secs(secs).to_system_time() {
            assert_eq!(UTCDateTime::from_system_time(time).as_secs(), secs);
            assert_eq!(Timestamp::from(time).as_secs(), secs);
        }
        if let Some(time) = Timestamp::from_secs(secs).to_system_time() {
            assert_eq!(Timestamp::from_system_time(time).as_secs(), secs);
        }
    }
    assert!(UTCDateTime::from_secs(0).to_system_time() == Some(std::time::UNIX_EPOCH));
}

#[test]
fn test_system_time_counts_whole_seconds() {
    let after = std::time::UNIX_EPOCH + std::time::Duration::from_millis(2500);
    assert_eq!(UTCDateTime::from_system_time(after).as_secs(), 2);
    let before = std::time::UNIX_EPOCH - std::time::Duration::from_millis(2500);
    assert_eq!(Timestamp::from_system_time(before).as_secs(), -2);
    let now = std::time::SystemTime::now();
    let expected = now.duration_since(std::time::UNIX_EPOCH).unwrap().as_secs() as i64;
    assert_eq!(UTCDateTime::from(now).as_secs(), expected);
    assert!(UTCDateTime::now().as_secs() >= expected);
    assert!(Timestamp::now().as_secs() >= expected);
}

#[test]
fn test_utc_date_time_parse_rejects_what_is_no_number() {
    assert_eq!(UTCDateTime::parse(""), None);
    assert_eq!(UTCDateTime::parse("-"), None);
    assert_eq!(UTCDateTime::parse("12a"), None);
    assert_eq!(UTCDateTime::parse(" 12"), None);
    assert_eq!(UTCDateTime::parse("9223372036854775808"), None);
    assert_eq!(
        UTCDateTime::parse("9223372036854775807").map(|d| d.as_secs()),
        Some(i64::MAX)
    );
    assert_eq!(
        UTCDateTime::parse("-9223372036854775808").map(|d| d.as_secs()),
        Some(i64::MIN)
    );
    assert_eq!(UTCDateTime::parse("+007").map(|d| d.as_secs()), Some(7));
}

// -------------------------------------
//          Timestamp tests
// -------------------------------------

#[test]
fn test_timestamp_now() {
    let time_stamp = Timestamp::now();
    assert!(time_stamp.as_secs() > 0);
}

#[test]
fn test_timestamp_from_secs() {
    let time_stamp = Timestamp::from_secs(1234567890);
    assert_eq!(time_stamp.as_secs(), 1234567890);
}

#[test]
fn test_timestamp_from_system_time() {
    let system_time = std::time::SystemTime::now();
    let time_stamp = Timestamp::from(system_time);
    assert!(time_stamp.as_secs() > 0);
}

#[test]
fn test_timestamp_into_i64() {
    let time_stamp = Timestamp::from_secs(1234567890);
    let secs: i64 = time_stamp.into();
    assert_eq!(secs, 1234567890);
}

#[test]
fn test_timestamp_into_system_time() {
    let time_stamp = Timestamp::from_secs(1234567890);
    let system_time: std::time::SystemTime = time_stamp.to_system_time().unwrap();
    assert_eq!(
        system_time,
        std::time::UNIX_EPOCH + std::time::Duration::from_secs(1234567890)
    );
}

#[test]
fn test_timestamp_into_string() {
    let time_stamp = Timestamp::from_secs(1234567890);
    assert_eq!(time_stamp.to_string(), "1234567890");
}

#[test]
fn test_timestamp_from_i64_and_parse() {
    assert_eq!(Timestamp::from(5i64).as_secs(), 5);
    assert_eq!(Timestamp::parse("-17").map(|t| t.as_secs()), Some(-17));
    assert_eq!(Timestamp::parse("x"), None);
}

// -------------------------------------
//          Value tests
// -------------------------------------

#[test]
fn test_value_as_f64() {
    let value = Value::from_f64_bits(3.0f64.to_bits());
    assert_eq!(value.as_f64().map(f64::from_bits), Some(3.0));
}

#[test]
fn test_value_as_str() {
    let value = Value::from("string");
    assert_eq!(value.as_str(), Some("string"));
}

#[test]
fn test_value_as_i32() {
    let value = Value::from(32);
    assert_eq!(value.as_i32(), Some(32));
}

#[test]
fn test_value_as_i64() {
    let value = Value::from(64i64);
    assert_eq!(value.as_i64(), Some(64));
}

#[test]
fn test_value_as_document() {
    let value = Value::from(Document::new());
    assert_eq!(value.as_document(), Some(&Document::new()));
}

#[test]
fn test_value_as_array() {
    let value = Value::from(Array::new());
    assert_eq!(value.as_array(), Some(&Array::new()));
}

#[test]
fn test_value_accessors_answer_none_for_other_kinds() {
    let value = Value::from(64i64);
    assert_eq!(value.as_i32(), None);
    assert_eq!(value.as_f64(), None);
    assert_eq!(value.as_str(), None);
    assert_eq!(value.as_document(), None);
    assert_eq!(value.as_array(), None);
    assert_eq!(Value::from(1).as_i64(), None);
}

// -------------------------------------
//          Conversions
// -------------------------------------

#[test]
fn test_value_from_i32() {
    let value = 32;
    assert_eq!(Value::from(value), Value::Int32(32));
}

#[test]
fn test_value_from_i64() {
    let value: i64 = 64;
    assert_eq!(Value::from(value), Value::Int64(64));
}

#[test]
fn test_value_from_f64() {
    let value: f64 = 3.0;
    assert_eq!(
        Value::from_f64_bits(value.to_bits()),
        Value::Double(3.0f64.to_bits())
    );
}

#[test]
fn test_value_from_system_time() {
    let system_time = std::time::SystemTime::now();
    let value = UTCDateTime::from(system_time);
    assert_eq!(Value::from(value), Value::from(UTCDateTime::from(system_time)));
}

#[test]
fn test_value_from_str() {
    let value = "string";
    assert_eq!(Value::from(value), Value::String("string".to_string()));
}

#[test]
fn test_value_into_string() {
    let value = "string";
    assert_eq!(Value::from(value.to_string()), Value::String("string".to_string()));
}

#[test]
fn test_value_into_vec() {
    let value = vec![0, 1, 2, 3];
    assert_eq!(
        Value::from(value),
        Value::Binary { subtype: 0, bytes: vec![0, 1, 2, 3] }
    );
}

#[test]
fn test_value_into_array() {
    let value = Array::new();
    assert_eq!(Value::from(value), Value::Array(Array::new()));
}

#[test]
fn test_value_into_document() {
    let value = Document::new();
    assert_eq!(Value::from(value), Value::Document(Document::new()));
}

#[test]
fn test_value_into_object_id() {
    let value = ObjectId::new();
    assert_eq!(Value::from(value), Value::ObjectId(value));
}

#[test]
fn test_value_into_utc_date_time() {
    let value = UTCDateTime::now();
    assert_eq!(Value::from(value), Value::UTCDateTime(value.as_secs()));
}

#[test]
fn test_value_into_timestamp() {
    let value = Timestamp::now();
    assert_eq!(Value::from(value), Value::Timestamp(value.as_secs()));
}

#[test]
fn test_value_into_i32() {
    let value = 32;
    assert_eq!(Value::from(value).as_i32(), Some(32));
}

#[test]
fn test_value_into_i64() {
    let value: i64 = 64;
    assert_eq!(Value::from(value).as_i64(), Some(64));
}

#[test]
fn test_value_into_u64() {
    let value = 64 as u64;
    assert_eq!(Value::from(value), Value::UInt64(64 as u64));
}

#[test]
fn test_value_into_min_key() {
    let value = Value::MinKey;
    assert_eq!(value, Value::MinKey);
    assert_ne!(value, Value::MaxKey);
}

#[test]
fn test_value_into_max_key() {
    let value = Value::MaxKey;
    assert_eq!(value, Value::MaxKey);
    assert_ne!(value, Value::MinKey);
}

#[test]
fn test_value_into_regex() {
    let value = ("pattern".to_string(), "options".to_string());
    assert_eq!(
        Value::RegularExpression { pattern: value.0.clone(), options: value.1.clone() },
        Value::RegularExpression {
            pattern: "pattern".to_string(),
            options: "options".to_string()
        }
    );
}

#[test]
fn test_value_into_javascript_code() {
    let value = "code";
    assert_eq!(
        Value::JavaScriptCode(value.to_string()),
        Value::JavaScriptCode("code".to_string())
    );
}

#[test]
fn test_value_into_javascript_code_with_scope() {
    let value = ("code".to_string(), Document::new());
    assert_eq!(
        Value::JavaScriptCodeWithScope { code: value.0.clone(), scope: value.1.clone() },
        Value::JavaScriptCodeWithScope { code: "code".to_string(), scope: Document::new() }
    );
}

#[test]
fn test_numeric_kinds_do_not_cross_equal() {
    assert_ne!(Value::Int32(1), Value::Int64(1));
    assert_ne!(Value::Int64(1), Value::Double(1.0f64.to_bits()));
    assert_ne!(Value::Int32(1), Value::Double(1.0f64.to_bits()));
    assert_ne!(Value::UInt64(1), Value::Int64(1));
}

// -------------------------------------
//          Display
// -------------------------------------

#[test]
fn test_value_display_texts() {
    assert_eq!(Value::from(-32).to_string(), "-32");
    assert_eq!(Value::from(64i64).to_string(), "64");
    assert_eq!(Value::from(u64::MAX).to_string(), "18446744073709551615");
    assert_eq!(Value::from("text").to_string(), "text");
    assert_eq!(Value::from(true).to_string(), "true");
    assert_eq!(Value::Null.to_string(), "null");
    assert_eq!(Value::MinKey.to_string(), "MinKey");
    assert_eq!(Value::MaxKey.to_string(), "MaxKey");
    assert_eq!(Value::UTCDateTime(-5).to_string(), "DateTime(-5)");
    assert_eq!(Value::Timestamp(7).to_string(), "Timestamp(7)");
    assert_eq!(Value::from(vec![1u8, 2, 3]).to_string(), "Binary(len: 3)");
    assert_eq!(
        Value::from(ObjectId::from_bytes([0xab; 12])).to_string(),
        "ObjectID(\"abababababababababababab\")"
    );
    assert_eq!(
        Value::RegularExpression { pattern: "a+".to_string(), options: "i".to_string() }
            .to_string(),
        "/a+/i"
    );
    assert_eq!(
        Value::JavaScriptCode("0123456789abcdef".to_string()).to_string(),
        "JavaScriptCode(0123456789)"
    );
    assert_eq!(Value::JavaScriptCode("short".to_string()).to_string(), "JavaScriptCode(short)");
    assert_eq!(
        Value::Double(1.0f64.to_bits()).to_string(),
        "Double(bits: 4607182418800017408)"
    );
}

#[test]
fn test_document_and_array_display_texts() {
    let mut doc = Document::new();
    assert_eq!(doc.to_string(), "{}");
    doc.insert("a", Value::from(1));
    assert_eq!(doc.to_string(), "{\"a\": 1}");
    doc.insert("b", Value::from(Array::from_vec(vec![Value::from(10), Value::Null])));
    assert_eq!(doc.to_string(), "{\"a\": 1, \"b\": [10, null]}");
    assert_eq!(Array::new().to_string(), "[]");
    let scope = Value::JavaScriptCodeWithScope {
        code: "function () { return 1; }".to_string(),
        scope: doc,
    };
    assert_eq!(
        scope.to_string(),
        "JavaScriptCodeWithScope(Code(function (), Scope({\"a\": 1, \"b\": [10, null]}))"
    );
}
