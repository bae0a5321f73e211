//! The command line, as plain values: what each subcommand is given.
use vstd::prelude::*;

verus! {

/// Parsed command line.
pub struct Cli {
    pub command: Commands,
}

/// The subcommands.
pub enum Commands {
    /// Full Kafka → ClickHouse pipeline migrations (streams, raw, datalake).
    Kafka(KafkaArgs),
    /// Field analysis and engine suggestions.
    Scan(ScanArgs),
    /// A single `CREATE TABLE` migration.
    Table(TableArgs),
    /// Additive `ALTER TABLE` migrations between two inputs.
    Diff(DiffArgs),
}

/// Arguments of `kafka`.
pub struct KafkaArgs {
    /// Path to the JSON input (`-` for standard input).
    pub input: String,
    /// Table name; defaults to the input file stem.
    pub name: Option<String>,
    /// ClickHouse cluster name.
    pub cluster: String,
    /// Kafka collection name.
    pub kafka: String,
    /// Directory for the migration files.
    pub output_dir: String,
    /// Print the migrations instead of writing files.
    pub stdout: bool,
}

/// Arguments of `scan`.
pub struct ScanArgs {
    /// Path to the JSON input (`-` for standard input).
    pub input: String,
    /// Table name; defaults to the input file stem.
    pub name: Option<String>,
    /// Cluster name; when given, `ReplicatedMergeTree` is suggested.
    pub cluster: Option<String>,
}

/// Arguments of `table`.
pub struct TableArgs {
    /// Path to the JSON input (`-` for standard input).
    pub input: String,
    /// Table name; defaults to the input file stem.
    pub name: Option<String>,
    /// Table engine; inferred when absent.
    pub engine: Option<String>,
    /// Comma-separated `ORDER BY` fields.
    pub order_by: Option<String>,
    /// ClickHouse cluster name.
    pub cluster: Option<String>,
    /// Directory for the migration files.
    pub output_dir: String,
    /// Print the migrations instead of writing files.
    pub stdout: bool,
}

/// Arguments of `diff`.
pub struct DiffArgs {
    /// The JSON input the table was made from (`-` for standard input).
    pub old: String,
    /// The JSON input to migrate to (`-` for standard input).
    pub new: String,
    /// Table name; defaults to the new input's file stem.
    pub name: Option<String>,
    /// ClickHouse cluster name.
    pub cluster: Option<String>,
    /// Directory for the migration files.
    pub output_dir: String,
    /// Print the migrations instead of writing files.
    pub stdout: bool,
}

/// The message for two inputs both read from standard input.
pub open spec fn both_stdin_message() -> Seq<char> {
    "only one of OLD and NEW can be read from stdin ('-')"@
}

/// The path `-` stands for standard input.
pub open spec fn is_stdin_path(p: Seq<char>) -> bool {
    p == "-"@
}

/// Checks that at most one of the two inputs of `diff` is standard input.
pub fn check_diff_inputs(old: &str, new: &str) -> (res: Result<(), String>)
    ensures
        res is Err <==> (is_stdin_path(old@) && is_stdin_path(new@)),
        res matches Err(m) ==> m@ == both_stdin_message(),
{
    if crate::text::str_eq(old, "-") && crate::text::str_eq(new, "-") {
        Err(String::from_str("only one of OLD and NEW can be read from stdin ('-')"))
    } else {
        Ok(())
    }
}

} // verus!
