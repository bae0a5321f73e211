use schemamaker::schema::{
    quote_ident, quote_qualified, quote_string_literal, ColumnType, TableEngine,
};

#[test]
fn column_type_names() {
    assert_eq!(ColumnType::String.as_str(), "String");
    assert_eq!(ColumnType::UInt64.as_str(), "UInt64");
    assert_eq!(ColumnType::DateTime64.as_str(), "DateTime64(3)");
    assert_eq!(ColumnType::Bool.as_nullable_str(), "Nullable(Bool)");
    assert_eq!(ColumnType::Int64.as_ch_str(true), "Nullable(Int64)");
    assert_eq!(ColumnType::Float64.as_ch_str(false), "Float64");
}

#[test]
fn engine_names_round_trip() {
    for e in [
        TableEngine::MergeTree,
        TableEngine::ReplicatedMergeTree,
        TableEngine::ReplacingMergeTree,
        TableEngine::SummingMergeTree,
    ] {
        assert_eq!(TableEngine::from_name(e.as_str()), Ok(e));
        assert_eq!(e.to_string().parse::<TableEngine>(), Ok(e));
    }
}

#[test]
fn unknown_engine_message() {
    assert_eq!(
        TableEngine::from_name("mergetree"),
        Err("unknown engine 'mergetree'; valid options: MergeTree, ReplicatedMergeTree, ReplacingMergeTree, SummingMergeTree".to_string())
    );
}

#[test]
fn quoting() {
    assert_eq!(quote_ident("a`b"), "`a``b`");
    assert_eq!(quote_ident(""), "``");
    assert_eq!(quote_string_literal("it's a \\ test"), "it''s a \\\\ test");
    assert_eq!(quote_qualified("raw", "t`x"), "`raw`.`t``x`");
}
