use schemamaker::diff::diff_schemas;
use schemamaker::inference::infer_schema;

#[test]
fn added_field_produces_add_and_drop() {
    let old = infer_schema(r#"[{"a":1}]"#, "t").unwrap();
    let new = infer_schema(r#"[{"a":1,"b":"x"}]"#, "t").unwrap();
    let d = diff_schemas(&old, &new, "t", None);
    assert!(d.up.contains("ADD COLUMN IF NOT EXISTS `b`"));
    assert!(d.down.contains("DROP COLUMN IF EXISTS `b`"));
    assert!(!d.up.contains("`a`")); // unchanged column untouched
    assert!(d.warnings.is_empty());
}

#[test]
fn removed_field_warns_not_dropped() {
    let old = infer_schema(r#"[{"a":1,"b":2}]"#, "t").unwrap();
    let new = infer_schema(r#"[{"a":1}]"#, "t").unwrap();
    let d = diff_schemas(&old, &new, "t", None);
    assert!(d.up.is_empty());
    assert!(
        d.warnings
            .iter()
            .any(|w| w.contains("`b`") && w.contains("not new"))
    );
}

#[test]
fn type_change_warns() {
    let old = infer_schema(r#"[{"a":1}]"#, "t").unwrap(); // Int64
    let new = infer_schema(r#"[{"a":"x"}]"#, "t").unwrap(); // String
    let d = diff_schemas(&old, &new, "t", None);
    assert!(d.up.is_empty());
    assert!(d.warnings.iter().any(|w| w.contains("changed type")));
}

#[test]
fn nullability_change_warns() {
    // a is nullable in old (absent from one record), non-nullable in new
    let old = infer_schema("{\"a\":1}\n{}", "t").unwrap();
    let new = infer_schema(r#"[{"a":1},{"a":2}]"#, "t").unwrap();
    let d = diff_schemas(&old, &new, "t", None);
    assert!(d.up.is_empty());
    assert!(
        d.warnings
            .iter()
            .any(|w| w.contains("`a`") && w.contains("changed type"))
    );
}

#[test]
fn identical_schemas_produce_no_changes() {
    let old = infer_schema(r#"[{"a":1,"b":"x"}]"#, "t").unwrap();
    let new = infer_schema(r#"[{"a":1,"b":"x"}]"#, "t").unwrap();
    let d = diff_schemas(&old, &new, "t", None);
    assert!(d.up.is_empty());
    assert!(d.down.is_empty());
    assert!(d.warnings.is_empty());
}

#[test]
fn combined_add_remove_and_type_change() {
    // old: a (kept, unchanged), b (removed), c (type change Int64 -> String)
    // new: a (unchanged), c (String), d (added)
    let old = infer_schema(r#"[{"a":1,"b":2,"c":3}]"#, "t").unwrap();
    let new = infer_schema(r#"[{"a":1,"c":"x","d":true}]"#, "t").unwrap();
    let d = diff_schemas(&old, &new, "t", None);

    assert!(d.up.contains("ADD COLUMN IF NOT EXISTS `d`"));
    assert!(!d.up.contains("`a`"));
    assert!(!d.up.contains("`b`"));
    assert!(!d.up.contains("`c`"));
    assert!(d.down.contains("DROP COLUMN IF EXISTS `d`"));

    assert!(
        d.warnings
            .iter()
            .any(|w| w.contains("`b`") && w.contains("not new"))
    );
    assert!(
        d.warnings
            .iter()
            .any(|w| w.contains("`c`") && w.contains("changed type"))
    );
}

#[test]
fn cluster_adds_on_cluster() {
    let old = infer_schema(r#"[{"a":1}]"#, "t").unwrap();
    let new = infer_schema(r#"[{"a":1,"b":2}]"#, "t").unwrap();
    let d = diff_schemas(&old, &new, "t", Some("ck"));
    assert!(d.up.contains("ON CLUSTER `ck`"));
}

#[test]
fn diff_statements_are_exact_and_down_is_reversed() {
    let old = infer_schema(r#"[{"a":1}]"#, "t").unwrap();
    let new = infer_schema(r#"[{"a":1,"b":"x","c":1.5}]"#, "t").unwrap();
    let d = diff_schemas(&old, &new, "t", Some("ck"));
    assert_eq!(
        d.up,
        "ALTER TABLE `t` ON CLUSTER `ck` ADD COLUMN IF NOT EXISTS `b` String;\n\
         ALTER TABLE `t` ON CLUSTER `ck` ADD COLUMN IF NOT EXISTS `c` Float64;"
    );
    assert_eq!(
        d.down,
        "ALTER TABLE `t` ON CLUSTER `ck` DROP COLUMN IF EXISTS `c`;\n\
         ALTER TABLE `t` ON CLUSTER `ck` DROP COLUMN IF EXISTS `b`;"
    );
    assert!(d.warnings.is_empty());
}

#[test]
fn diff_warning_texts_are_exact() {
    let old = infer_schema("{\"a\":1,\"b\":true}\n{\"b\":false}", "t").unwrap();
    let new = infer_schema(r#"[{"a":"x"}]"#, "t").unwrap();
    let d = diff_schemas(&old, &new, "t", None);
    assert_eq!(
        d.warnings,
        vec![
            "column `a` changed type Nullable(Int64) -> String (no MODIFY emitted; review manually)"
                .to_string(),
            "column `b` exists in old but not new (no DROP emitted; review manually)".to_string(),
        ]
    );
}
