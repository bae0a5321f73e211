use schemamaker::inference::infer_schema;
use schemamaker::report::scan_report;
use schemamaker::scanner::scan;

#[test]
fn report_lines() {
    let schema = infer_schema(
        "{\"event_id\":\"e\",\"amount\":1.5}\n{\"event_id\":\"f\",\"event_time\":\"x\"}",
        "t",
    )
    .unwrap();
    let result = scan(&schema, false);
    let r = scan_report(&result, "in.json", 2);
    assert_eq!(r.header, "Field analysis: in.json  (2 records, 3 fields)\n");
    assert_eq!(r.fields[0].name, "event_id  ");
    assert_eq!(r.fields[0].ch_type, "String           ");
    assert_eq!(r.fields[0].requirement, "required ");
    assert_eq!(r.fields[0].role, "→ ID-like");
    assert_eq!(r.fields[1].ch_type, "Nullable(Float64)");
    assert_eq!(r.fields[1].requirement, "nullable ");
    assert_eq!(r.fields[1].role, "→ Numeric");
    assert_eq!(r.fields[2].role, "→ Timestamp-like");
    assert_eq!(r.suggestions.len(), 3);
    assert_eq!(r.suggestions[0].number, "1");
    assert_eq!(r.suggestions[0].engine, "MergeTree");
    assert_eq!(r.suggestions[0].order_by, "     ORDER BY (event_time)");
    assert_eq!(r.suggestions[0].sum_columns, None);
    assert_eq!(r.suggestions[0].rationale, "     → general purpose time-series table\n");
    assert_eq!(
        r.suggestions[0].command,
        "  schemamaker table in.json --engine MergeTree"
    );
    assert_eq!(
        r.suggestions[2].sum_columns,
        Some("     SUM COLUMNS (amount)".to_string())
    );
    assert_eq!(
        r.suggestions[2].command,
        "  schemamaker table in.json --engine SummingMergeTree"
    );
}

#[test]
fn report_without_key_uses_tuple() {
    let schema = infer_schema("{\"v\":1}", "t").unwrap();
    let r = scan_report(&scan(&schema, true), "x", 1);
    assert_eq!(r.suggestions[0].engine, "ReplicatedMergeTree");
    assert_eq!(r.suggestions[0].order_by, "     ORDER BY tuple()");
    assert_eq!(r.suggestions[0].command, "  schemamaker table x --engine ReplicatedMergeTree");
}
