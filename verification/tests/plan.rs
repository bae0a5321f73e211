use schemamaker::cli::check_diff_inputs;
use schemamaker::inference::infer_schema;
use schemamaker::plan::{migration_file_names, resolve_engine_config, table_name_from};
use schemamaker::schema::TableEngine;

const SAMPLE: &str = r#"[{"user_id":"u1","event_time":"2024-03-01T00:00:00Z","amount":5}]"#;

#[test]
fn table_name_defaults_to_file_stem() {
    assert_eq!(table_name_from(None, "dir/video_events.json"), Some("video_events".to_string()));
    assert_eq!(table_name_from(Some("custom".to_string()), "dir/x.json"), Some("custom".to_string()));
    assert_eq!(table_name_from(None, "/"), None);
}

#[test]
fn migration_files() {
    assert_eq!(
        migration_file_names("t"),
        ("t_up.sql".to_string(), "t_down.sql".to_string())
    );
}

#[test]
fn config_without_engine_is_first_suggestion() {
    let schema = infer_schema(SAMPLE, "t").unwrap();
    let c = resolve_engine_config(&schema, None, None).unwrap();
    assert_eq!(c.engine, TableEngine::MergeTree);
    assert_eq!(c.order_by, vec!["event_time".to_string()]);
    assert!(c.sum_columns.is_empty());
}

#[test]
fn config_with_engine_takes_its_suggestion() {
    let schema = infer_schema(SAMPLE, "t").unwrap();
    let c = resolve_engine_config(&schema, Some("ReplacingMergeTree"), None).unwrap();
    assert_eq!(c.engine, TableEngine::ReplacingMergeTree);
    assert_eq!(c.order_by, vec!["user_id".to_string(), "event_time".to_string()]);
    assert_eq!(c.sum_columns, vec!["amount".to_string()]);
    let r = resolve_engine_config(&schema, Some("ReplicatedMergeTree"), None).unwrap();
    assert_eq!(r.engine, TableEngine::ReplicatedMergeTree);
    assert_eq!(r.order_by, vec!["event_time".to_string()]);
}

#[test]
fn config_order_by_flag_is_split_and_trimmed() {
    let schema = infer_schema(SAMPLE, "t").unwrap();
    let c = resolve_engine_config(&schema, Some("MergeTree"), Some(" user_id , event_time,")).unwrap();
    assert_eq!(
        c.order_by,
        vec!["user_id".to_string(), "event_time".to_string(), "".to_string()]
    );
}

#[test]
fn config_unknown_engine() {
    let schema = infer_schema(SAMPLE, "t").unwrap();
    let e = resolve_engine_config(&schema, Some("Nope"), None).err().unwrap();
    assert!(e.starts_with("unknown engine 'Nope'"));
}

#[test]
fn diff_inputs_both_stdin() {
    assert!(check_diff_inputs("-", "-").err().unwrap().contains("only one of"));
    assert!(check_diff_inputs("-", "new.json").is_ok());
}
