# schemamaker

Generates ClickHouse migration SQL from JSON records (a JSON array, or JSON
objects one after another), verified with Verus.

- `src/json.rs`: the record shape inference reads, and the `serde_json` calls
  that produce it.
- `src/inference.rs`: column inference (order of first appearance, type
  widening, nullability) and its laws.
- `src/scanner.rs`: field roles and engine suggestions.
- `src/generator.rs`: the Kafka pipeline and single-table migrations.
- `src/diff.rs`: additive `ALTER TABLE` migrations between two schemas.
- `src/plan.rs`: table name, engine configuration and file names.
- `src/report.rs`: the text of the scan report.
- `src/schema.rs`, `src/text.rs`, `src/cli.rs`: types, quoting and string helpers.
- `app/main.rs`: argument parsing, file I/O and coloured printing.
