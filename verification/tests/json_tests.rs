use data_api::json::encode_records;
use data_api::record::Record;

fn rec(field1: &str, field2: i32) -> Record {
    Record {
        field1: field1.to_string(),
        field2,
    }
}

fn encode(rows: &[(&str, i32)]) -> String {
    let t: Vec<Record> = rows.iter().map(|&(f1, f2)| rec(f1, f2)).collect();
    encode_records(&t)
}

/// What serde-backed serialization of the same rows would produce, built
/// value by value.
fn serde_encoding(rows: &[(&str, i32)]) -> String {
    let items: Vec<serde_json::Value> = rows
        .iter()
        .map(|&(f1, f2)| {
            let mut obj = serde_json::Map::new();
            obj.insert(
                "field1".to_string(),
                serde_json::Value::String(f1.to_string()),
            );
            obj.insert(
                "field2".to_string(),
                serde_json::Value::Number(serde_json::Number::from(f2)),
            );
            serde_json::Value::Object(obj)
        })
        .collect();
    serde_json::to_string(&serde_json::Value::Array(items)).unwrap()
}

#[test]
fn single_record() {
    assert_eq!(encode(&[("a", 1000)]), "[{\"field1\":\"a\",\"field2\":1000}]");
}

#[test]
fn several_records_are_comma_separated() {
    assert_eq!(
        encode(&[("a", 1), ("b", 2), ("c", 3)]),
        "[{\"field1\":\"a\",\"field2\":1},{\"field1\":\"b\",\"field2\":2},{\"field1\":\"c\",\"field2\":3}]"
    );
}

#[test]
fn no_records_is_the_empty_array() {
    assert_eq!(encode(&[]), "[]");
}

#[test]
fn quotes_and_backslashes_are_escaped() {
    assert_eq!(
        encode(&[("he said \"hi\"", 7)]),
        "[{\"field1\":\"he said \\\"hi\\\"\",\"field2\":7}]"
    );
    assert_eq!(
        encode(&[("a\\b", 7)]),
        "[{\"field1\":\"a\\\\b\",\"field2\":7}]"
    );
}

#[test]
fn named_control_characters_use_short_escapes() {
    assert_eq!(
        encode(&[("a\u{8}\u{c}\n\r\tb", 1)]),
        "[{\"field1\":\"a\\b\\f\\n\\r\\tb\",\"field2\":1}]"
    );
}

#[test]
fn other_control_characters_use_u00_escapes() {
    assert_eq!(
        encode(&[("\u{1}\u{1f}", 1)]),
        "[{\"field1\":\"\\u0001\\u001f\",\"field2\":1}]"
    );
}

#[test]
fn characters_beyond_ascii_stand_for_themselves() {
    assert_eq!(
        encode(&[("héllo → мир", 1)]),
        "[{\"field1\":\"héllo → мир\",\"field2\":1}]"
    );
}

#[test]
fn integer_encodings() {
    assert_eq!(encode(&[("z", 0)]), "[{\"field1\":\"z\",\"field2\":0}]");
    assert_eq!(encode(&[("z", -5)]), "[{\"field1\":\"z\",\"field2\":-5}]");
    assert_eq!(
        encode(&[("z", i32::MAX)]),
        "[{\"field1\":\"z\",\"field2\":2147483647}]"
    );
    assert_eq!(
        encode(&[("z", i32::MIN)]),
        "[{\"field1\":\"z\",\"field2\":-2147483648}]"
    );
}

#[test]
fn agrees_with_serde_serialization() {
    let cases: &[&[(&str, i32)]] = &[
        &[],
        &[("a", 1000)],
        &[("a", 1000), ("b", 900)],
        &[("he said \"hi\"\\", -42), ("tab\there", 0)],
        &[("\u{1}\u{1f}\u{8}\u{c}\n\r\t", i32::MIN)],
        &[("héllo → мир", i32::MAX)],
    ];
    for rows in cases {
        assert_eq!(encode(rows), serde_encoding(rows));
    }
}
