use schemamaker::generator::{Generator, TableGenerator};
use schemamaker::schema::{Column, ColumnType, EngineConfig, InferredSchema, TableEngine};

fn schema_with(columns: Vec<Column>) -> InferredSchema {
    InferredSchema {
        table_name: "t".to_string(),
        columns,
    }
}

fn col(name: &str, ch_type: ColumnType) -> Column {
    Column {
        name: name.to_string(),
        ch_type,
        nullable: false,
        low_cardinality: false,
    }
}

#[test]
fn partition_by_emitted_for_datetime_order_key() {
    let schema = schema_with(vec![col("event_time", ColumnType::DateTime64)]);
    let config = EngineConfig {
        engine: TableEngine::MergeTree,
        order_by: vec!["event_time".to_string()],
        sum_columns: vec![],
    };
    let sql = TableGenerator::new(&schema, config, None).generate_up();
    assert!(sql.contains("PARTITION BY toYYYYMM(`event_time`)"));
}

#[test]
fn no_partition_by_for_string_named_like_timestamp() {
    // `event_date` is a String (date-only strings stay String); toYYYYMM would be invalid.
    let schema = schema_with(vec![col("event_date", ColumnType::String)]);
    let config = EngineConfig {
        engine: TableEngine::MergeTree,
        order_by: vec!["event_date".to_string()],
        sum_columns: vec![],
    };
    let sql = TableGenerator::new(&schema, config, None).generate_up();
    assert!(!sql.contains("PARTITION BY"));
}

#[test]
fn column_name_with_backtick_is_escaped_in_table_ddl() {
    let schema = schema_with(vec![col("a`b", ColumnType::String)]);
    let config = EngineConfig {
        engine: TableEngine::MergeTree,
        order_by: vec![],
        sum_columns: vec![],
    };
    let sql = TableGenerator::new(&schema, config, None).generate_up();
    assert!(sql.contains("`a``b` String"));
}

#[test]
fn engine_str_replicated_merge_tree() {
    let schema = schema_with(vec![col("a", ColumnType::String)]);
    let config = EngineConfig {
        engine: TableEngine::ReplicatedMergeTree,
        order_by: vec![],
        sum_columns: vec![],
    };
    let sql = TableGenerator::new(&schema, config, None).generate_up();
    assert!(sql.contains(
        "ENGINE = ReplicatedMergeTree('/clickhouse/{cluster}/tables/t/{shard}', '{replica}')"
    ));
}

#[test]
fn engine_str_replacing_merge_tree() {
    let schema = schema_with(vec![col("a", ColumnType::String)]);
    let config = EngineConfig {
        engine: TableEngine::ReplacingMergeTree,
        order_by: vec![],
        sum_columns: vec![],
    };
    let sql = TableGenerator::new(&schema, config, None).generate_up();
    assert!(sql.contains("ENGINE = ReplacingMergeTree()"));
}

#[test]
fn engine_str_summing_merge_tree_with_sum_columns() {
    let schema = schema_with(vec![col("amount", ColumnType::Int64)]);
    let config = EngineConfig {
        engine: TableEngine::SummingMergeTree,
        order_by: vec![],
        sum_columns: vec!["amount".to_string()],
    };
    let sql = TableGenerator::new(&schema, config, None).generate_up();
    assert!(sql.contains("ENGINE = SummingMergeTree(`amount`)"));
}

#[test]
fn generate_down_with_cluster() {
    let schema = schema_with(vec![col("a", ColumnType::String)]);
    let config = EngineConfig {
        engine: TableEngine::MergeTree,
        order_by: vec![],
        sum_columns: vec![],
    };
    let sql = TableGenerator::new(&schema, config, Some("ck".to_string())).generate_down();
    assert_eq!(sql, "DROP TABLE IF EXISTS `t` ON CLUSTER ck SYNC;");
}

#[test]
fn generate_down_without_cluster() {
    let schema = schema_with(vec![col("a", ColumnType::String)]);
    let config = EngineConfig {
        engine: TableEngine::MergeTree,
        order_by: vec![],
        sum_columns: vec![],
    };
    let sql = TableGenerator::new(&schema, config, None).generate_down();
    assert_eq!(sql, "DROP TABLE IF EXISTS `t`;");
}

#[test]
fn generate_up_with_cluster_adds_on_cluster_clause() {
    let schema = schema_with(vec![col("a", ColumnType::String)]);
    let config = EngineConfig {
        engine: TableEngine::MergeTree,
        order_by: vec![],
        sum_columns: vec![],
    };
    let sql = TableGenerator::new(&schema, config, Some("ck".to_string())).generate_up();
    assert!(sql.contains("`t` ON CLUSTER ck"));
}

#[test]
fn column_name_with_quote_is_escaped_in_kafka_pipeline() {
    let schema = schema_with(vec![col("it's", ColumnType::String)]);
    let generator = Generator::new(&schema, "cluster".to_string(), "kafka".to_string());
    let sql = generator.generate_up();
    // identifier position: backtick-quoted, unescaped since no backtick in name
    assert!(sql.contains("`it's`"));
    // JSONExtract path argument: single-quote doubled inside the string literal
    assert!(sql.contains("JSONExtract(message, 'it''s', 'String') AS `it's`"));
}

#[test]
fn table_up_full_text() {
    let mut b = col("b", ColumnType::Float64);
    b.nullable = true;
    let schema = schema_with(vec![col("ts", ColumnType::DateTime64), b]);
    let config = EngineConfig {
        engine: TableEngine::SummingMergeTree,
        order_by: vec!["ts".to_string(), "b".to_string()],
        sum_columns: vec!["b".to_string()],
    };
    let sql = TableGenerator::new(&schema, config, Some("ck".to_string())).generate_up();
    assert_eq!(
        sql,
        "CREATE TABLE IF NOT EXISTS `t` ON CLUSTER ck\n(\n\t`ts` DateTime64(3),\n\t`b` Nullable(Float64)\n)\n\tENGINE = SummingMergeTree(`b`)\n\tPARTITION BY toYYYYMM(`ts`)\n\tORDER BY (`ts`, `b`)\n\tSETTINGS index_granularity = 8192;"
    );
}

#[test]
fn table_up_without_columns_or_key() {
    let schema = schema_with(vec![]);
    let config = EngineConfig {
        engine: TableEngine::SummingMergeTree,
        order_by: vec![],
        sum_columns: vec![],
    };
    let sql = TableGenerator::new(&schema, config, None).generate_up();
    assert_eq!(
        sql,
        "CREATE TABLE IF NOT EXISTS `t`\n(\n\n)\n\tENGINE = SummingMergeTree()\n\tORDER BY tuple()\n\tSETTINGS index_granularity = 8192;"
    );
}

#[test]
fn low_cardinality_column_type() {
    let mut c = col("k", ColumnType::String);
    c.nullable = true;
    c.low_cardinality = true;
    assert_eq!(c.ch_type_str(), "LowCardinality(Nullable(String))");
}

#[test]
fn kafka_down_full_text() {
    let schema = schema_with(vec![col("a", ColumnType::String)]);
    let generator = Generator::new(&schema, "ck".to_string(), "kafka".to_string());
    assert_eq!(
        generator.generate_down(),
        "DROP VIEW IF EXISTS `streams`.`t_mv` ON CLUSTER ck SYNC;\n\
         DROP VIEW IF EXISTS `raw`.`t_mv` ON CLUSTER ck SYNC;\n\
         DROP TABLE IF EXISTS `datalake`.`t` ON CLUSTER ck SYNC;\n\
         DROP TABLE IF EXISTS `raw`.`t` ON CLUSTER ck SYNC;\n\
         DROP TABLE IF EXISTS `streams`.`t` ON CLUSTER ck SYNC;"
    );
}

#[test]
fn kafka_up_has_five_objects_in_order() {
    let mut a = col("a", ColumnType::Int64);
    a.nullable = true;
    let schema = schema_with(vec![a]);
    let generator = Generator::new(&schema, "ck".to_string(), "kf".to_string());
    let sql = generator.generate_up();
    let parts: Vec<&str> = sql.split("\n\n").collect();
    assert_eq!(parts.len(), 5);
    assert!(parts[0].starts_with("CREATE TABLE IF NOT EXISTS `streams`.`t` ON CLUSTER ck\n"));
    assert!(parts[0].contains("ENGINE = Kafka(kf)"));
    assert!(parts[0].contains("'private.{environment}.t.v1'"));
    assert!(parts[1].starts_with("CREATE TABLE IF NOT EXISTS `raw`.`t` ON CLUSTER ck\n"));
    assert!(parts[2].contains("\t`a` Nullable(Int64),\n\t`_timestamp_ms` DateTime64(3),"));
    assert!(parts[2].contains("/tables/datalake/t/{shard}"));
    assert!(parts[3].starts_with("CREATE MATERIALIZED VIEW IF NOT EXISTS `raw`.`t_mv`\n\tON CLUSTER ck TO `datalake`.`t` AS"));
    assert!(parts[3].contains("\t\tJSONExtract(message, 'a', 'Nullable(Int64)') AS `a`,\n"));
    assert!(parts[4].starts_with("CREATE MATERIALIZED VIEW IF NOT EXISTS `streams`.`t_mv`\n\tON CLUSTER ck\n\tTO `raw`.`t` ("));
    assert!(parts[4].ends_with("FROM `streams`.`t`;"));
}
