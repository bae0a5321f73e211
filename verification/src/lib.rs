//! Generates ClickHouse migration SQL from JSON records: infers a schema,
//! classifies fields and suggests table engines, writes Kafka pipeline,
//! single-table and additive `ALTER TABLE` migrations.
pub mod cli;
pub mod diff;
pub mod generator;
pub mod inference;
pub mod json;
pub mod plan;
pub mod report;
pub mod scanner;
pub mod schema;
pub mod text;
