use schemamaker::inference::infer_schema;
use schemamaker::scanner::scan;
use schemamaker::schema::TableEngine;

#[test]
fn suggests_summing_for_metrics_with_dimensions() {
    let schema = infer_schema(
        r#"[{"user_id":"u1","event_time":"2024-03-01T00:00:00Z","amount":5}]"#,
        "t",
    )
    .unwrap();
    let result = scan(&schema, false);
    let summing = result
        .suggestions
        .iter()
        .find(|s| s.engine == TableEngine::SummingMergeTree)
        .expect("expected a SummingMergeTree suggestion");
    assert_eq!(summing.sum_columns, vec!["amount".to_string()]);
    assert!(summing.order_by.contains(&"user_id".to_string()));
    assert!(summing.order_by.contains(&"event_time".to_string()));
}

#[test]
fn summing_order_by_uses_one_id_plus_one_timestamp() {
    // Multiple id fields present — only the first should be in the grouping key.
    let schema = infer_schema(
        r#"[{"user_id":"u1","session_id":"s1","video_id":"v1","event_time":"2024-03-01T00:00:00Z","amount":5}]"#,
        "t",
    )
    .unwrap();
    let result = scan(&schema, false);
    let summing = result
        .suggestions
        .iter()
        .find(|s| s.engine == TableEngine::SummingMergeTree)
        .expect("expected a SummingMergeTree suggestion");
    assert_eq!(
        summing.order_by,
        vec!["user_id".to_string(), "event_time".to_string()]
    );
}

#[test]
fn replicated_scan_suggests_replicated_merge_tree() {
    let schema = infer_schema(
        r#"[{"user_id":"u1","event_time":"2024-03-01T00:00:00Z"}]"#,
        "t",
    )
    .unwrap();
    let result = scan(&schema, true);
    assert_eq!(
        result.suggestions[0].engine,
        TableEngine::ReplicatedMergeTree
    );
}

#[test]
fn suggests_replacing_merge_tree_for_id_and_timestamp() {
    let schema = infer_schema(
        r#"[{"user_id":"u1","event_time":"2024-03-01T00:00:00Z","name":"a"}]"#,
        "t",
    )
    .unwrap();
    let result = scan(&schema, false);
    let replacing = result
        .suggestions
        .iter()
        .find(|s| s.engine == TableEngine::ReplacingMergeTree)
        .expect("expected a ReplacingMergeTree suggestion");
    assert_eq!(
        replacing.order_by,
        vec!["user_id".to_string(), "event_time".to_string()]
    );
    assert!(replacing.rationale.contains("dedup"));
}

#[test]
fn no_summing_without_numeric_metric() {
    let schema = infer_schema(
        r#"[{"user_id":"u1","event_time":"2024-03-01T00:00:00Z"}]"#,
        "t",
    )
    .unwrap();
    let result = scan(&schema, false);
    assert!(
        !result
            .suggestions
            .iter()
            .any(|s| s.engine == TableEngine::SummingMergeTree)
    );
}

#[test]
fn field_roles_and_rationales() {
    let schema = infer_schema(
        r#"[{"ID":7,"Created_At":"x","price":1.5,"ok":true}]"#,
        "t",
    )
    .unwrap();
    let result = scan(&schema, false);
    let roles: Vec<(String, String, bool, bool, bool)> = result
        .fields
        .iter()
        .map(|f| (f.name.clone(), f.ch_type.clone(), f.timestamp, f.id, f.numeric))
        .collect();
    assert_eq!(
        roles,
        vec![
            ("ID".to_string(), "Int64".to_string(), false, true, false),
            ("Created_At".to_string(), "String".to_string(), true, false, false),
            ("price".to_string(), "Float64".to_string(), false, false, true),
            ("ok".to_string(), "Bool".to_string(), false, false, false),
        ]
    );
    assert_eq!(result.suggestions.len(), 3);
    assert_eq!(result.suggestions[0].engine, TableEngine::MergeTree);
    assert_eq!(result.suggestions[0].order_by, vec!["Created_At".to_string()]);
    assert_eq!(result.suggestions[0].rationale, "general purpose time-series table");
    assert_eq!(
        result.suggestions[1].rationale,
        "deduplicates rows by `ID` — good for upsert-like data"
    );
    assert_eq!(
        result.suggestions[2].rationale,
        "pre-aggregates `price` — good for metrics/counters"
    );
    let config = result.suggestions[2].to_engine_config();
    assert_eq!(config.engine, TableEngine::SummingMergeTree);
    assert_eq!(config.sum_columns, vec!["price".to_string()]);
}

#[test]
fn merge_tree_without_timestamp_has_empty_key() {
    let schema = infer_schema(r#"{"amount":3}"#, "t").unwrap();
    let result = scan(&schema, false);
    assert_eq!(result.suggestions.len(), 1);
    assert!(result.suggestions[0].order_by.is_empty());
}


#[test]
fn name_rules_are_case_insensitive_and_need_the_underscore() {
    let schema = infer_schema(
        r#"[{"Event_Time":"x","timestamps":"y","at":"z","User_ID":1,"valid":2,"identity":3,"UUID":"u"}]"#,
        "t",
    )
    .unwrap();
    let result = scan(&schema, false);
    let flags: Vec<(bool, bool)> = result.fields.iter().map(|f| (f.timestamp, f.id)).collect();
    assert_eq!(
        flags,
        vec![
            (true, false),
            (false, false),
            (false, false),
            (false, true),
            (false, false),
            (false, false),
            (false, true),
        ]
    );
    let summing = result
        .suggestions
        .iter()
        .find(|s| s.engine == TableEngine::SummingMergeTree)
        .unwrap();
    assert_eq!(summing.order_by, vec!["User_ID".to_string(), "Event_Time".to_string()]);
    assert_eq!(
        summing.rationale,
        "pre-aggregates `valid`, `identity` — good for metrics/counters"
    );
}
