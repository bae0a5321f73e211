use schemamaker::inference::{infer_schema, infer_schema_from_records, record_count};
use schemamaker::json::{JsonEntry, JsonKind, JsonRecord};
use schemamaker::schema::ColumnType;

fn summary(content: &str) -> Vec<(String, ColumnType, bool)> {
    infer_schema(content, "t")
        .unwrap()
        .columns
        .into_iter()
        .map(|c| (c.name, c.ch_type, c.nullable))
        .collect()
}

#[test]
fn types_follow_the_readme_table() {
    assert_eq!(
        summary(r#"[{"s":"x","i":1,"f":1.5,"b":true,"n":null,"a":[1],"o":{"k":1}}]"#),
        vec![
            ("s".to_string(), ColumnType::String, false),
            ("i".to_string(), ColumnType::Int64, false),
            ("f".to_string(), ColumnType::Float64, false),
            ("b".to_string(), ColumnType::Bool, false),
            ("n".to_string(), ColumnType::String, false),
            ("a".to_string(), ColumnType::String, false),
            ("o".to_string(), ColumnType::String, false),
        ]
    );
}

#[test]
fn int_and_float_widen_to_float_other_conflicts_to_string() {
    assert_eq!(
        summary("{\"x\":1,\"y\":1}\n{\"x\":2.5,\"y\":true}"),
        vec![
            ("x".to_string(), ColumnType::Float64, false),
            ("y".to_string(), ColumnType::String, false),
        ]
    );
}

#[test]
fn large_unsigned_integer_is_int64() {
    assert_eq!(
        summary(r#"[{"u":18446744073709551615,"n":-5}]"#),
        vec![
            ("u".to_string(), ColumnType::Int64, false),
            ("n".to_string(), ColumnType::Int64, false),
        ]
    );
}

#[test]
fn missing_field_is_nullable_and_order_is_first_appearance() {
    assert_eq!(
        summary(r#"[{"b":1,"a":2},{"c":3,"a":4}]"#),
        vec![
            ("b".to_string(), ColumnType::Int64, true),
            ("a".to_string(), ColumnType::Int64, false),
            ("c".to_string(), ColumnType::Int64, true),
        ]
    );
}

#[test]
fn table_name_is_kept() {
    let s = infer_schema(r#"{"a":1}"#, "events").unwrap();
    assert_eq!(s.table_name, "events");
    assert!(s.columns.iter().all(|c| !c.low_cardinality));
}

#[test]
fn pretty_printed_objects_one_after_another() {
    let content = "  {\n  \"a\": 1\n}\n{\n  \"a\": 2,\n  \"b\": \"x\"\n}\n ";
    assert_eq!(
        summary(content),
        vec![
            ("a".to_string(), ColumnType::Int64, false),
            ("b".to_string(), ColumnType::String, true),
        ]
    );
}

#[test]
fn empty_input_is_an_error() {
    let e = infer_schema("   \n ", "t").err().unwrap();
    assert_eq!(e, "input file is empty or contains no JSON objects");
    let e = infer_schema("[]", "t").err().unwrap();
    assert_eq!(e, "input file is empty or contains no JSON objects");
}

#[test]
fn non_object_record_is_an_error() {
    let e = infer_schema(r#"[{"a":1},{"b":2},3]"#, "t").err().unwrap();
    assert_eq!(e, "record 3: expected a JSON object, got something else");
    let e = infer_schema("\"x\"", "t").err().unwrap();
    assert_eq!(e, "record 1: expected a JSON object, got something else");
}

#[test]
fn malformed_array_is_an_error() {
    let e = infer_schema("[{\"a\":1},", "t").err().unwrap();
    assert!(e.starts_with("Error parsing JSON array: "), "{}", e);
}

#[test]
fn malformed_stream_is_an_error() {
    let e = infer_schema("{\"a\":1}\n{\"a\":", "t").err().unwrap();
    assert!(e.starts_with("Error parsing JSON: "), "{}", e);
    assert!(!e.starts_with("Error parsing JSON array"));
}

#[test]
fn record_count_of_array_stream_and_broken_array() {
    assert_eq!(record_count("[{\"a\":1},{\"a\":2},3]"), 3);
    assert_eq!(record_count("{\"a\":1}\n{\"a\":2}\n"), 2);
    assert_eq!(record_count("[{\"a\":1},"), 0);
    assert_eq!(record_count(""), 0);
    // the stream yields the value and then the error
    assert_eq!(record_count("{\"a\":1} {"), 2);
}

#[test]
fn inference_from_records_directly() {
    let records = vec![
        JsonRecord::Object(vec![
            JsonEntry { key: "a".to_string(), kind: JsonKind::Number { as_i64: Some(1), as_u64: Some(1) } },
            JsonEntry { key: "b".to_string(), kind: JsonKind::Str },
        ]),
        JsonRecord::Object(vec![JsonEntry {
            key: "a".to_string(),
            kind: JsonKind::Number { as_i64: None, as_u64: None },
        }]),
    ];
    let s = infer_schema_from_records(&records, "t").unwrap();
    let got: Vec<(String, ColumnType, bool)> =
        s.columns.into_iter().map(|c| (c.name, c.ch_type, c.nullable)).collect();
    assert_eq!(
        got,
        vec![
            ("a".to_string(), ColumnType::Float64, false),
            ("b".to_string(), ColumnType::String, true),
        ]
    );
    let bad = vec![JsonRecord::Object(vec![]), JsonRecord::NotObject];
    assert_eq!(
        infer_schema_from_records(&bad, "t").err().unwrap(),
        "record 2: expected a JSON object, got something else"
    );
}

#[test]
fn unicode_whitespace_around_input_is_trimmed() {
    assert_eq!(
        summary("\u{a0}\u{2003}[{\"a\":true}]\u{3000}"),
        vec![("a".to_string(), ColumnType::Bool, false)]
    );
}
