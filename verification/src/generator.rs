//! SQL migrations: the Kafka → ClickHouse pipeline (`Generator`) and a single
//! table (`TableGenerator`).
use vstd::prelude::*;
use crate::schema::Column;
use crate::schema::ColumnType;
use crate::schema::EngineConfig;
use crate::schema::InferredSchema;
use crate::schema::TableEngine;
use crate::schema::column_sql_type;
use crate::schema::escaped_literal;
use crate::schema::qualified_ident;
use crate::schema::quote_ident;
use crate::schema::quote_qualified;
use crate::schema::quote_string_literal;
use crate::schema::quoted_ident;
use crate::text::concat;
use crate::text::join;
use crate::text::join_seqs;
use crate::text::ends_with;
use crate::text::lemma_concat_ends;
use crate::text::lemma_starts_with_trans;
use crate::text::starts_with;

verus! {

broadcast use vstd::string::group_string_axioms;

// ---------------------------------------------------------------------------
// The Kafka pipeline
// ---------------------------------------------------------------------------

/// `CREATE TABLE streams.t`: the Kafka engine table.
pub open spec fn streams_table_sql(t: Seq<char>, c: Seq<char>, k: Seq<char>) -> Seq<char> {
    "CREATE TABLE IF NOT EXISTS "@ + qualified_ident("streams"@, t) + " ON CLUSTER "@ + c
        + "\n(\n\t`message` String\n)\n\tENGINE = Kafka("@ + k
        + ") SETTINGS kafka_topic_list =\n\t'private.{environment}."@ + escaped_literal(t)
        + ".v1', kafka_group_name =\n\t'clickhouse-{environment}xdcl-"@ + escaped_literal(t)
        + "-shard-1', kafka_format = 'RawBLOB';"@
}

/// `CREATE TABLE raw.t`: raw messages with their Kafka metadata.
pub open spec fn raw_table_sql(t: Seq<char>, c: Seq<char>) -> Seq<char> {
    "CREATE TABLE IF NOT EXISTS "@ + qualified_ident("raw"@, t) + " ON CLUSTER "@ + c
        + "\n(\n\t`message`       String,\n\t`_key`          String,\n\t`_offset`       UInt64,\n\t`_partition`    UInt64,\n\t`_timestamp_ms` DateTime64(3),\n\t`_topic`        LowCardinality(String),\n\t`_row_created`  DateTime DEFAULT nowInBlock()\n)\n\tENGINE = ReplicatedMergeTree('/clickhouse/{cluster}/tables/raw/"@
        + escaped_literal(t)
        + "/{shard}', '{replica}')\n\tPARTITION BY toYYYYMM(_row_created)\n\tORDER BY _row_created\n\tSETTINGS index_granularity = 8192;"@
}

/// One column of the datalake table.
pub open spec fn datalake_column_line(col: Column) -> Seq<char> {
    "\t"@ + quoted_ident(col.name@) + " "@ + column_sql_type(col) + ",\n"@
}

/// The column lines of the datalake table, one after another.
pub open spec fn datalake_column_lines(cols: Seq<Column>) -> Seq<char>
    decreases cols.len(),
{
    if cols.len() == 0 {
        Seq::empty()
    } else {
        datalake_column_lines(cols.drop_last()) + datalake_column_line(cols.last())
    }
}

/// `CREATE TABLE datalake.t`: the typed table.
pub open spec fn datalake_table_sql(t: Seq<char>, c: Seq<char>, cols: Seq<Column>) -> Seq<char> {
    "CREATE TABLE IF NOT EXISTS "@ + qualified_ident("datalake"@, t) + " ON CLUSTER "@ + c
        + "\n(\n"@ + datalake_column_lines(cols)
        + "\t`_timestamp_ms` DateTime64(3),\n\t`_topic`        LowCardinality(String),\n\t`_row_created`  DateTime DEFAULT nowInBlock()\n)\n\tENGINE = ReplicatedMergeTree('/clickhouse/{cluster}/tables/datalake/"@
        + escaped_literal(t)
        + "/{shard}', '{replica}')\n\tPARTITION BY toYYYYMM(_timestamp_ms)\n\tORDER BY _timestamp_ms\n\tSETTINGS index_granularity = 8192;"@
}

/// One `JSONExtract` of the raw materialized view.
pub open spec fn extract_line(col: Column) -> Seq<char> {
    "\t\tJSONExtract(message, '"@ + escaped_literal(col.name@) + "', '"@ + column_sql_type(col)
        + "') AS "@ + quoted_ident(col.name@) + ",\n"@
}

/// The `JSONExtract` lines, one after another.
pub open spec fn extract_lines(cols: Seq<Column>) -> Seq<char>
    decreases cols.len(),
{
    if cols.len() == 0 {
        Seq::empty()
    } else {
        extract_lines(cols.drop_last()) + extract_line(cols.last())
    }
}

/// `CREATE MATERIALIZED VIEW raw.t_mv`: raw → datalake.
pub open spec fn raw_mv_sql(t: Seq<char>, c: Seq<char>, cols: Seq<Column>) -> Seq<char> {
    "CREATE MATERIALIZED VIEW IF NOT EXISTS "@ + qualified_ident("raw"@, t + "_mv"@)
        + "\n\tON CLUSTER "@ + c + " TO "@ + qualified_ident("datalake"@, t)
        + " AS\nSELECT * FROM (\n\tSELECT\n"@ + extract_lines(cols)
        + "\t\t`_timestamp_ms`,\n\t\t`_topic`,\n\t\t`_row_created`\n\tFROM "@
        + qualified_ident("raw"@, t) + "\n) SETTINGS cast_keep_nullable = 1;"@
}

/// `CREATE MATERIALIZED VIEW streams.t_mv`: Kafka → raw.
pub open spec fn streams_mv_sql(t: Seq<char>, c: Seq<char>) -> Seq<char> {
    "CREATE MATERIALIZED VIEW IF NOT EXISTS "@ + qualified_ident("streams"@, t + "_mv"@)
        + "\n\tON CLUSTER "@ + c + "\n\tTO "@ + qualified_ident("raw"@, t)
        + " (\n\t\t`message`        String,\n\t\t`_key`           String,\n\t\t`_offset`        UInt64,\n\t\t`_partition`     UInt64,\n\t\t`_timestamp_ms`  DateTime64(3),\n\t\t`_topic`         LowCardinality(String),\n\t\t`_row_created`   DateTime\n\t) AS\nSELECT\n\tmessage,\n\t_key,\n\t_offset,\n\t_partition,\n\tassumeNotNull(_timestamp_ms) AS _timestamp_ms,\n\t_topic,\n\tnowInBlock() AS _row_created\nFROM "@
        + qualified_ident("streams"@, t) + ";"@
}

/// The up migration of the pipeline: the five objects, in dependency order,
/// separated by blank lines.
pub open spec fn kafka_up_sql(t: Seq<char>, c: Seq<char>, k: Seq<char>, cols: Seq<Column>) -> Seq<
    char,
> {
    streams_table_sql(t, c, k) + "\n\n"@ + raw_table_sql(t, c) + "\n\n"@ + datalake_table_sql(
        t,
        c,
        cols,
    ) + "\n\n"@ + raw_mv_sql(t, c, cols) + "\n\n"@ + streams_mv_sql(t, c)
}

/// The down migration of the pipeline: the five objects dropped in reverse
/// order of creation, each view before the tables it reads and writes.
pub open spec fn kafka_down_sql(t: Seq<char>, c: Seq<char>) -> Seq<char> {
    "DROP VIEW IF EXISTS "@ + qualified_ident("streams"@, t + "_mv"@) + " ON CLUSTER "@ + c
        + " SYNC;\nDROP VIEW IF EXISTS "@ + qualified_ident("raw"@, t + "_mv"@) + " ON CLUSTER "@
        + c + " SYNC;\nDROP TABLE IF EXISTS "@ + qualified_ident("datalake"@, t) + " ON CLUSTER "@
        + c + " SYNC;\nDROP TABLE IF EXISTS "@ + qualified_ident("raw"@, t) + " ON CLUSTER "@ + c
        + " SYNC;\nDROP TABLE IF EXISTS "@ + qualified_ident("streams"@, t) + " ON CLUSTER "@ + c
        + " SYNC;"@
}

/// Writes the Kafka → ClickHouse pipeline for a schema.
pub struct Generator<'a> {
    schema: &'a InferredSchema,
    cluster: String,
    kafka: String,
}

impl<'a> Generator<'a> {
    /// The table name.
    pub closed spec fn table(&self) -> Seq<char> {
        self.schema.table_name@
    }

    /// The columns.
    pub closed spec fn columns(&self) -> Seq<Column> {
        self.schema.columns@
    }

    /// The cluster name.
    pub closed spec fn cluster(&self) -> Seq<char> {
        self.cluster@
    }

    /// The Kafka collection name.
    pub closed spec fn kafka(&self) -> Seq<char> {
        self.kafka@
    }

    pub fn new(schema: &'a InferredSchema, cluster: String, kafka: String) -> (g: Self)
        ensures
            g.table() == schema.table_name@,
            g.columns() == schema.columns@,
            g.cluster() == cluster@,
            g.kafka() == kafka@,
    {
        Generator { schema, cluster, kafka }
    }

    /// The up migration: creates streams, raw and datalake tables and the two
    /// materialized views.
    pub fn generate_up(&self) -> (s: String)
        ensures
            s@ == kafka_up_sql(self.table(), self.cluster(), self.kafka(), self.columns()),
    {
        let mut s = self.streams_table();
        s.append("\n\n");
        let raw = self.raw_table();
        s.append(raw.as_str());
        s.append("\n\n");
        let dl = self.datalake_table();
        s.append(dl.as_str());
        s.append("\n\n");
        let rmv = self.raw_mv();
        s.append(rmv.as_str());
        s.append("\n\n");
        let smv = self.streams_mv();
        s.append(smv.as_str());
        s
    }

    /// The down migration: drops the five objects, views first, in reverse
    /// order of creation.
    pub fn generate_down(&self) -> (s: String)
        ensures
            s@ == kafka_down_sql(self.table(), self.cluster()),
    {
        let t = self.schema.table_name.as_str();
        let c = self.cluster.as_str();
        let mv = concat(t, "_mv");
        let mut s = String::from_str("DROP VIEW IF EXISTS ");
        s.append(quote_qualified("streams", mv.as_str()).as_str());
        s.append(" ON CLUSTER ");
        s.append(c);
        s.append(" SYNC;\nDROP VIEW IF EXISTS ");
        s.append(quote_qualified("raw", mv.as_str()).as_str());
        s.append(" ON CLUSTER ");
        s.append(c);
        s.append(" SYNC;\nDROP TABLE IF EXISTS ");
        s.append(quote_qualified("datalake", t).as_str());
        s.append(" ON CLUSTER ");
        s.append(c);
        s.append(" SYNC;\nDROP TABLE IF EXISTS ");
        s.append(quote_qualified("raw", t).as_str());
        s.append(" ON CLUSTER ");
        s.append(c);
        s.append(" SYNC;\nDROP TABLE IF EXISTS ");
        s.append(quote_qualified("streams", t).as_str());
        s.append(" ON CLUSTER ");
        s.append(c);
        s.append(" SYNC;");
        s
    }

    fn streams_table(&self) -> (s: String)
        ensures
            s@ == streams_table_sql(self.table(), self.cluster(), self.kafka()),
    {
        let t = self.schema.table_name.as_str();
        let topic = quote_string_literal(t);
        let mut s = String::from_str("CREATE TABLE IF NOT EXISTS ");
        s.append(quote_qualified("streams", t).as_str());
        s.append(" ON CLUSTER ");
        s.append(self.cluster.as_str());
        s.append("\n(\n\t`message` String\n)\n\tENGINE = Kafka(");
        s.append(self.kafka.as_str());
        s.append(") SETTINGS kafka_topic_list =\n\t'private.{environment}.");
        s.append(topic.as_str());
        s.append(".v1', kafka_group_name =\n\t'clickhouse-{environment}xdcl-");
        s.append(topic.as_str());
        s.append("-shard-1', kafka_format = 'RawBLOB';");
        s
    }

    fn raw_table(&self) -> (s: String)
        ensures
            s@ == raw_table_sql(self.table(), self.cluster()),
    {
        let t = self.schema.table_name.as_str();
        let mut s = String::from_str("CREATE TABLE IF NOT EXISTS ");
        s.append(quote_qualified("raw", t).as_str());
        s.append(" ON CLUSTER ");
        s.append(self.cluster.as_str());
        s.append(
            "\n(\n\t`message`       String,\n\t`_key`          String,\n\t`_offset`       UInt64,\n\t`_partition`    UInt64,\n\t`_timestamp_ms` DateTime64(3),\n\t`_topic`        LowCardinality(String),\n\t`_row_created`  DateTime DEFAULT nowInBlock()\n)\n\tENGINE = ReplicatedMergeTree('/clickhouse/{cluster}/tables/raw/",
        );
        s.append(quote_string_literal(t).as_str());
        s.append(
            "/{shard}', '{replica}')\n\tPARTITION BY toYYYYMM(_row_created)\n\tORDER BY _row_created\n\tSETTINGS index_granularity = 8192;",
        );
        s
    }

    fn datalake_table(&self) -> (s: String)
        ensures
            s@ == datalake_table_sql(self.table(), self.cluster(), self.columns()),
    {
        let t = self.schema.table_name.as_str();
        let mut s = String::from_str("CREATE TABLE IF NOT EXISTS ");
        s.append(quote_qualified("datalake", t).as_str());
        s.append(" ON CLUSTER ");
        s.append(self.cluster.as_str());
        s.append("\n(\n");
        let cols = &self.schema.columns;
        let ghost start = s@;
        let mut i: usize = 0;
        while i < cols.len()
            invariant
                i <= cols.len(),
                s@ == start + datalake_column_lines(cols@.take(i as int)),
            decreases cols.len() - i,
        {
            assert(cols@.take(i + 1).drop_last() =~= cols@.take(i as int));
            s.append("\t");
            s.append(quote_ident(cols[i].name.as_str()).as_str());
            s.append(" ");
            s.append(cols[i].ch_type_str().as_str());
            s.append(",\n");
            i = i + 1;
        }
        assert(cols@.take(cols.len() as int) =~= cols@);
        s.append(
            "\t`_timestamp_ms` DateTime64(3),\n\t`_topic`        LowCardinality(String),\n\t`_row_created`  DateTime DEFAULT nowInBlock()\n)\n\tENGINE = ReplicatedMergeTree('/clickhouse/{cluster}/tables/datalake/",
        );
        s.append(quote_string_literal(t).as_str());
        s.append(
            "/{shard}', '{replica}')\n\tPARTITION BY toYYYYMM(_timestamp_ms)\n\tORDER BY _timestamp_ms\n\tSETTINGS index_granularity = 8192;",
        );
        s
    }

    fn raw_mv(&self) -> (s: String)
        ensures
            s@ == raw_mv_sql(self.table(), self.cluster(), self.columns()),
    {
        let t = self.schema.table_name.as_str();
        let mv = concat(t, "_mv");
        let mut s = String::from_str("CREATE MATERIALIZED VIEW IF NOT EXISTS ");
        s.append(quote_qualified("raw", mv.as_str()).as_str());
        s.append("\n\tON CLUSTER ");
        s.append(self.cluster.as_str());
        s.append(" TO ");
        s.append(quote_qualified("datalake", t).as_str());
        s.append(" AS\nSELECT * FROM (\n\tSELECT\n");
        let cols = &self.schema.columns;
        let ghost start = s@;
        let mut i: usize = 0;
        while i < cols.len()
            invariant
                i <= cols.len(),
                s@ == start + extract_lines(cols@.take(i as int)),
            decreases cols.len() - i,
        {
            assert(cols@.take(i + 1).drop_last() =~= cols@.take(i as int));
            let name = cols[i].name.as_str();
            s.append("\t\tJSONExtract(message, '");
            s.append(quote_string_literal(name).as_str());
            s.append("', '");
            s.append(cols[i].ch_type_str().as_str());
            s.append("') AS ");
            s.append(quote_ident(name).as_str());
            s.append(",\n");
            i = i + 1;
        }
        assert(cols@.take(cols.len() as int) =~= cols@);
        s.append("\t\t`_timestamp_ms`,\n\t\t`_topic`,\n\t\t`_row_created`\n\tFROM ");
        s.append(quote_qualified("raw", t).as_str());
        s.append("\n) SETTINGS cast_keep_nullable = 1;");
        s
    }

    fn streams_mv(&self) -> (s: String)
        ensures
            s@ == streams_mv_sql(self.table(), self.cluster()),
    {
        let t = self.schema.table_name.as_str();
        let mv = concat(t, "_mv");
        let mut s = String::from_str("CREATE MATERIALIZED VIEW IF NOT EXISTS ");
        s.append(quote_qualified("streams", mv.as_str()).as_str());
        s.append("\n\tON CLUSTER ");
        s.append(self.cluster.as_str());
        s.append("\n\tTO ");
        s.append(quote_qualified("raw", t).as_str());
        s.append(
            " (\n\t\t`message`        String,\n\t\t`_key`           String,\n\t\t`_offset`        UInt64,\n\t\t`_partition`     UInt64,\n\t\t`_timestamp_ms`  DateTime64(3),\n\t\t`_topic`         LowCardinality(String),\n\t\t`_row_created`   DateTime\n\t) AS\nSELECT\n\tmessage,\n\t_key,\n\t_offset,\n\t_partition,\n\tassumeNotNull(_timestamp_ms) AS _timestamp_ms,\n\t_topic,\n\tnowInBlock() AS _row_created\nFROM ",
        );
        s.append(quote_qualified("streams", t).as_str());
        s.append(";");
        s
    }
}


// ---------------------------------------------------------------------------
// A single table
// ---------------------------------------------------------------------------

/// Each name quoted as an identifier.
pub open spec fn quoted_all(names: Seq<Seq<char>>) -> Seq<Seq<char>> {
    names.map_values(|n: Seq<char>| quoted_ident(n))
}

/// ` ON CLUSTER c` when a cluster is given.
pub open spec fn cluster_clause(cluster: Option<Seq<char>>) -> Seq<char> {
    match cluster {
        Some(c) => " ON CLUSTER "@ + c,
        None => Seq::empty(),
    }
}

/// One column of a table, without the separator.
pub open spec fn table_column_line(col: Column) -> Seq<char> {
    "\t"@ + quoted_ident(col.name@) + " "@ + column_sql_type(col)
}

/// The column lines of a table.
pub open spec fn table_column_lines(cols: Seq<Column>) -> Seq<Seq<char>> {
    cols.map_values(|c: Column| table_column_line(c))
}

/// The `ENGINE = ..` expression.
pub open spec fn engine_sql(e: TableEngine, t: Seq<char>, sums: Seq<Seq<char>>) -> Seq<char> {
    match e {
        TableEngine::MergeTree => "MergeTree()"@,
        TableEngine::ReplicatedMergeTree => "ReplicatedMergeTree('/clickhouse/{cluster}/tables/"@
            + escaped_literal(t) + "/{shard}', '{replica}')"@,
        TableEngine::ReplacingMergeTree => "ReplacingMergeTree()"@,
        TableEngine::SummingMergeTree => if sums.len() == 0 {
            "SummingMergeTree()"@
        } else {
            "SummingMergeTree("@ + join_seqs(quoted_all(sums), ", "@) + ")"@
        },
    }
}

/// The `ORDER BY` expression: `tuple()` for no key, else the quoted key.
pub open spec fn order_sql(order: Seq<Seq<char>>) -> Seq<char> {
    if order.len() == 0 {
        "tuple()"@
    } else {
        "("@ + join_seqs(quoted_all(order), ", "@) + ")"@
    }
}

/// The first `ORDER BY` field is a `DateTime64` column of the schema.
pub open spec fn partitions_by_first_key(cols: Seq<Column>, order: Seq<Seq<char>>) -> bool {
    order.len() > 0 && exists|i: int|
        0 <= i < cols.len() && (#[trigger] cols[i]).name@ == order[0] && cols[i].ch_type
            == ColumnType::DateTime64
}

/// The `PARTITION BY` line, present only for a `DateTime64` first key.
pub open spec fn partition_sql(cols: Seq<Column>, order: Seq<Seq<char>>) -> Seq<char> {
    if partitions_by_first_key(cols, order) {
        "\tPARTITION BY toYYYYMM("@ + quoted_ident(order[0]) + ")\n"@
    } else {
        Seq::empty()
    }
}

/// `CREATE TABLE` for one table.
pub open spec fn table_up_sql(
    t: Seq<char>,
    cols: Seq<Column>,
    e: TableEngine,
    order: Seq<Seq<char>>,
    sums: Seq<Seq<char>>,
    cluster: Option<Seq<char>>,
) -> Seq<char> {
    "CREATE TABLE IF NOT EXISTS "@ + quoted_ident(t) + cluster_clause(cluster) + "\n(\n"@
        + join_seqs(table_column_lines(cols), ",\n"@) + "\n"@ + ")\n\tENGINE = "@ + engine_sql(
        e,
        t,
        sums,
    ) + "\n"@ + partition_sql(cols, order) + "\tORDER BY "@ + order_sql(order)
        + "\n\tSETTINGS index_granularity = 8192;"@
}

/// `DROP TABLE` for one table.
pub open spec fn table_down_sql(t: Seq<char>, cluster: Option<Seq<char>>) -> Seq<char> {
    match cluster {
        Some(c) => "DROP TABLE IF EXISTS "@ + quoted_ident(t) + " ON CLUSTER "@ + c + " SYNC;"@,
        None => "DROP TABLE IF EXISTS "@ + quoted_ident(t) + ";"@,
    }
}

/// The view of an optional string.
pub open spec fn opt_view(o: Option<String>) -> Option<Seq<char>> {
    match o {
        Some(s) => Some(s@),
        None => None,
    }
}

fn quote_all(names: &Vec<String>) -> (res: Vec<String>)
    ensures
        res.deep_view() == quoted_all(names.deep_view()),
{
    let ghost dv = names.deep_view();
    let mut res: Vec<String> = Vec::new();
    let mut i: usize = 0;
    while i < names.len()
        invariant
            dv == names.deep_view(),
            i <= names.len(),
            res.deep_view() == quoted_all(dv.take(i as int)),
        decreases names.len() - i,
    {
        let q = quote_ident(names[i].as_str());
        let ghost before = res.deep_view();
        res.push(q);
        assert(res.deep_view() =~= before.push(q@));
        assert(quoted_all(dv.take(i + 1)) =~= quoted_all(dv.take(i as int)).push(
            quoted_ident(dv[i as int]),
        ));
        i = i + 1;
    }
    assert(dv.take(names.len() as int) =~= dv);
    res
}

/// Writes a single `CREATE TABLE` / `DROP TABLE` migration.
pub struct TableGenerator<'a> {
    schema: &'a InferredSchema,
    config: EngineConfig,
    cluster: Option<String>,
}

impl<'a> TableGenerator<'a> {
    /// The table name.
    pub closed spec fn table(&self) -> Seq<char> {
        self.schema.table_name@
    }

    /// The columns.
    pub closed spec fn columns(&self) -> Seq<Column> {
        self.schema.columns@
    }

    /// The engine.
    pub closed spec fn engine(&self) -> TableEngine {
        self.config.engine
    }

    /// The `ORDER BY` fields.
    pub closed spec fn order_by(&self) -> Seq<Seq<char>> {
        self.config.order_by.deep_view()
    }

    /// The columns a `SummingMergeTree` sums.
    pub closed spec fn sum_columns(&self) -> Seq<Seq<char>> {
        self.config.sum_columns.deep_view()
    }

    /// The cluster, if any.
    pub closed spec fn cluster(&self) -> Option<Seq<char>> {
        opt_view(self.cluster)
    }

    pub fn new(schema: &'a InferredSchema, config: EngineConfig, cluster: Option<String>) -> (g:
        Self)
        ensures
            g.table() == schema.table_name@,
            g.columns() == schema.columns@,
            g.engine() == config.engine,
            g.order_by() == config.order_by.deep_view(),
            g.sum_columns() == config.sum_columns.deep_view(),
            g.cluster() == opt_view(cluster),
    {
        TableGenerator { schema, config, cluster }
    }

    /// `CREATE TABLE IF NOT EXISTS` with the columns, engine, optional
    /// partitioning and `ORDER BY`.
    pub fn generate_up(&self) -> (s: String)
        ensures
            s@ == table_up_sql(
                self.table(),
                self.columns(),
                self.engine(),
                self.order_by(),
                self.sum_columns(),
                self.cluster(),
            ),
    {
        let t = self.schema.table_name.as_str();
        let mut s = String::from_str("CREATE TABLE IF NOT EXISTS ");
        s.append(quote_ident(t).as_str());
        match &self.cluster {
            Some(c) => {
                s.append(" ON CLUSTER ");
                s.append(c.as_str());
            },
            None => {},
        }
        s.append("\n(\n");
        let cols = &self.schema.columns;
        let mut lines: Vec<String> = Vec::new();
        let mut i: usize = 0;
        while i < cols.len()
            invariant
                i <= cols.len(),
                lines.deep_view() == table_column_lines(cols@.take(i as int)),
            decreases cols.len() - i,
        {
            let mut line = String::from_str("\t");
            line.append(quote_ident(cols[i].name.as_str()).as_str());
            line.append(" ");
            line.append(cols[i].ch_type_str().as_str());
            let ghost before = lines.deep_view();
            lines.push(line);
            assert(lines.deep_view() =~= before.push(table_column_line(cols@[i as int])));
            assert(table_column_lines(cols@.take(i + 1)) =~= table_column_lines(
                cols@.take(i as int),
            ).push(table_column_line(cols@[i as int])));
            i = i + 1;
        }
        assert(cols@.take(cols.len() as int) =~= cols@);
        s.append(join(&lines, ",\n").as_str());
        s.append("\n");
        s.append(")\n\tENGINE = ");
        s.append(self.engine_str().as_str());
        s.append("\n");
        let order = &self.config.order_by;
        if order.len() > 0 && self.has_datetime_column(&order[0]) {
            s.append("\tPARTITION BY toYYYYMM(");
            s.append(quote_ident(order[0].as_str()).as_str());
            s.append(")\n");
        }
        s.append("\tORDER BY ");
        if order.len() == 0 {
            s.append("tuple()");
        } else {
            s.append("(");
            s.append(join(&quote_all(order), ", ").as_str());
            s.append(")");
        }
        s.append("\n\tSETTINGS index_granularity = 8192;");
        s
    }

    /// Some column named `name` has type `DateTime64`.
    fn has_datetime_column(&self, name: &String) -> (b: bool)
        ensures
            b == exists|i: int|
                0 <= i < self.columns().len() && (#[trigger] self.columns()[i]).name@ == name@
                    && self.columns()[i].ch_type == ColumnType::DateTime64,
    {
        let cols = &self.schema.columns;
        let mut i: usize = 0;
        while i < cols.len()
            invariant
                i <= cols.len(),
                cols@ == self.columns(),
                forall|j: int|
                    0 <= j < i ==> !((#[trigger] cols@[j]).name@ == name@ && cols@[j].ch_type
                        == ColumnType::DateTime64),
            decreases cols.len() - i,
        {
            if cols[i].name == *name && cols[i].ch_type == ColumnType::DateTime64 {
                return true;
            }
            i = i + 1;
        }
        false
    }

    /// `DROP TABLE IF EXISTS`, on the cluster when one is given.
    pub fn generate_down(&self) -> (s: String)
        ensures
            s@ == table_down_sql(self.table(), self.cluster()),
    {
        let qt = quote_ident(self.schema.table_name.as_str());
        let mut s = String::from_str("DROP TABLE IF EXISTS ");
        s.append(qt.as_str());
        match &self.cluster {
            Some(c) => {
                s.append(" ON CLUSTER ");
                s.append(c.as_str());
                s.append(" SYNC;");
            },
            None => {
                s.append(";");
            },
        }
        s
    }

    fn engine_str(&self) -> (s: String)
        ensures
            s@ == engine_sql(self.engine(), self.table(), self.sum_columns()),
    {
        match self.config.engine {
            TableEngine::MergeTree => String::from_str("MergeTree()"),
            TableEngine::ReplicatedMergeTree => {
                let mut s = String::from_str("ReplicatedMergeTree('/clickhouse/{cluster}/tables/");
                s.append(quote_string_literal(self.schema.table_name.as_str()).as_str());
                s.append("/{shard}', '{replica}')");
                s
            },
            TableEngine::ReplacingMergeTree => String::from_str("ReplacingMergeTree()"),
            TableEngine::SummingMergeTree => {
                if self.config.sum_columns.len() == 0 {
                    String::from_str("SummingMergeTree()")
                } else {
                    let mut s = String::from_str("SummingMergeTree(");
                    s.append(join(&quote_all(&self.config.sum_columns), ", ").as_str());
                    s.append(")");
                    s
                }
            },
        }
    }
}


// ---------------------------------------------------------------------------
// Laws of the generators
// ---------------------------------------------------------------------------

/// The pipeline's up migration is its five `CREATE` statements, in the
/// order streams table, raw table, datalake table, raw view, streams view,
/// joined by blank lines.
pub proof fn law_kafka_up_is_five_statements(t: Seq<char>, c: Seq<char>, k: Seq<char>, cols: Seq<Column>)
    ensures
        kafka_up_sql(t, c, k, cols) == join_seqs(
            seq![
                streams_table_sql(t, c, k),
                raw_table_sql(t, c),
                datalake_table_sql(t, c, cols),
                raw_mv_sql(t, c, cols),
                streams_mv_sql(t, c),
            ],
            "\n\n"@,
        ),
{
    let parts = seq![
        streams_table_sql(t, c, k),
        raw_table_sql(t, c),
        datalake_table_sql(t, c, cols),
        raw_mv_sql(t, c, cols),
        streams_mv_sql(t, c),
    ];
    let sep = "\n\n"@;
    assert(parts.drop_last().drop_last().drop_last().drop_last() =~= seq![parts[0]]);
    assert(join_seqs(parts.take(1), sep) == parts[0]) by {
        assert(parts.take(1) =~= seq![parts[0]]);
    }
    assert(parts.take(2).drop_last() =~= parts.take(1));
    assert(parts.take(3).drop_last() =~= parts.take(2));
    assert(parts.take(4).drop_last() =~= parts.take(3));
    assert(parts.drop_last() =~= parts.take(4));
    assert(join_seqs(parts.take(2), sep) == parts[0] + sep + parts[1]);
    assert(join_seqs(parts.take(3), sep) == parts[0] + sep + parts[1] + sep + parts[2]);
    assert(join_seqs(parts.take(4), sep) == parts[0] + sep + parts[1] + sep + parts[2] + sep
        + parts[3]);
}

proof fn lemma_column_lines_append(a: Seq<Column>, b: Seq<Column>)
    ensures
        datalake_column_lines(a + b) == datalake_column_lines(a) + datalake_column_lines(b),
        extract_lines(a + b) == extract_lines(a) + extract_lines(b),
    decreases b.len(),
{
    if b.len() == 0 {
        assert(a + b =~= a);
        assert(datalake_column_lines(a) + datalake_column_lines(b) =~= datalake_column_lines(a));
        assert(extract_lines(a) + extract_lines(b) =~= extract_lines(a));
    } else {
        lemma_column_lines_append(a, b.drop_last());
        assert((a + b).drop_last() =~= a + b.drop_last());
        assert((a + b).last() == b.last());
        assert(datalake_column_lines(a + b) =~= datalake_column_lines(a) + datalake_column_lines(b));
        assert(extract_lines(a + b) =~= extract_lines(a) + extract_lines(b));
    }
}

/// Each column has its own line in the datalake table and its own
/// `JSONExtract` in the raw view, in schema order: the lines of the columns
/// before it, then its line, then the lines of the columns after it.
pub proof fn law_one_line_per_column(cols: Seq<Column>, k: int)
    requires
        0 <= k < cols.len(),
    ensures
        datalake_column_lines(cols) == datalake_column_lines(cols.take(k)) + datalake_column_line(
            cols[k],
        ) + datalake_column_lines(cols.skip(k + 1)),
        extract_lines(cols) == extract_lines(cols.take(k)) + extract_line(cols[k]) + extract_lines(
            cols.skip(k + 1),
        ),
{
    let one = seq![cols[k]];
    assert(cols =~= cols.take(k) + one + cols.skip(k + 1));
    lemma_column_lines_append(cols.take(k) + one, cols.skip(k + 1));
    lemma_column_lines_append(cols.take(k), one);
    assert(one.drop_last() =~= Seq::<Column>::empty());
    assert(one.last() == cols[k]);
    assert(datalake_column_lines(Seq::<Column>::empty()) =~= Seq::<char>::empty());
    assert(extract_lines(Seq::<Column>::empty()) =~= Seq::<char>::empty());
    assert(datalake_column_lines(one) == datalake_column_lines(one.drop_last())
        + datalake_column_line(one.last()));
    assert(extract_lines(one) == extract_lines(one.drop_last()) + extract_line(one.last()));
    assert(datalake_column_lines(one) =~= datalake_column_line(cols[k]));
    assert(extract_lines(one) =~= extract_line(cols[k]));
}

/// The engine expressions: `MergeTree()`, `ReplacingMergeTree()`, the
/// replicated engine's path with the table name escaped as a literal, and
/// `SummingMergeTree` with its quoted summed columns (none: `()`). None of
/// them involves the cluster.
pub proof fn law_engine_texts(t: Seq<char>, sums: Seq<Seq<char>>)
    ensures
        engine_sql(TableEngine::MergeTree, t, sums) == "MergeTree()"@,
        engine_sql(TableEngine::ReplacingMergeTree, t, sums) == "ReplacingMergeTree()"@,
        engine_sql(TableEngine::ReplicatedMergeTree, t, sums)
            == "ReplicatedMergeTree('/clickhouse/{cluster}/tables/"@ + escaped_literal(t)
            + "/{shard}', '{replica}')"@,
        engine_sql(TableEngine::SummingMergeTree, t, sums) == if sums.len() == 0 {
            "SummingMergeTree()"@
        } else {
            "SummingMergeTree("@ + join_seqs(quoted_all(sums), ", "@) + ")"@
        },
{
}

/// The pipeline's views connect its tables in order: the streams view reads
/// the Kafka table that the streams statement creates and writes into the raw
/// table that the raw statement creates; the raw view reads that raw table
/// and writes into the datalake table that the datalake statement creates.
pub proof fn law_views_connect_the_stages(t: Seq<char>, c: Seq<char>, k: Seq<char>, cols: Seq<Column>)
    ensures
        starts_with(
            streams_table_sql(t, c, k),
            "CREATE TABLE IF NOT EXISTS "@ + qualified_ident("streams"@, t) + " ON CLUSTER "@ + c,
        ),
        starts_with(
            raw_table_sql(t, c),
            "CREATE TABLE IF NOT EXISTS "@ + qualified_ident("raw"@, t) + " ON CLUSTER "@ + c,
        ),
        starts_with(
            datalake_table_sql(t, c, cols),
            "CREATE TABLE IF NOT EXISTS "@ + qualified_ident("datalake"@, t) + " ON CLUSTER "@ + c,
        ),
        starts_with(
            streams_mv_sql(t, c),
            "CREATE MATERIALIZED VIEW IF NOT EXISTS "@ + qualified_ident("streams"@, t + "_mv"@)
                + "\n\tON CLUSTER "@ + c + "\n\tTO "@ + qualified_ident("raw"@, t),
        ),
        ends_with(streams_mv_sql(t, c), "FROM "@ + qualified_ident("streams"@, t) + ";"@),
        starts_with(
            raw_mv_sql(t, c, cols),
            "CREATE MATERIALIZED VIEW IF NOT EXISTS "@ + qualified_ident("raw"@, t + "_mv"@)
                + "\n\tON CLUSTER "@ + c + " TO "@ + qualified_ident("datalake"@, t),
        ),
        ends_with(
            raw_mv_sql(t, c, cols),
            "\tFROM "@ + qualified_ident("raw"@, t) + "\n) SETTINGS cast_keep_nullable = 1;"@,
        ),
{
    let qs = qualified_ident("streams"@, t);
    let qr = qualified_ident("raw"@, t);
    let qd = qualified_ident("datalake"@, t);
    let ct = "CREATE TABLE IF NOT EXISTS "@;
    let oc = " ON CLUSTER "@;
    let p1 = ct + qs + oc + c;
    let s1 = streams_table_sql(t, c, k);
    assert(s1 =~= p1 + s1.subrange(p1.len() as int, s1.len() as int));
    lemma_concat_ends(p1, s1.subrange(p1.len() as int, s1.len() as int));
    let p2 = ct + qr + oc + c;
    let s2 = raw_table_sql(t, c);
    assert(s2 =~= p2 + s2.subrange(p2.len() as int, s2.len() as int));
    lemma_concat_ends(p2, s2.subrange(p2.len() as int, s2.len() as int));
    let p3 = ct + qd + oc + c;
    let s3 = datalake_table_sql(t, c, cols);
    assert(s3 =~= p3 + s3.subrange(p3.len() as int, s3.len() as int));
    lemma_concat_ends(p3, s3.subrange(p3.len() as int, s3.len() as int));

    let cv = "CREATE MATERIALIZED VIEW IF NOT EXISTS "@;
    let p4 = cv + qualified_ident("streams"@, t + "_mv"@) + "\n\tON CLUSTER "@ + c + "\n\tTO "@ + qr;
    let s4 = streams_mv_sql(t, c);
    assert(s4 =~= p4 + s4.subrange(p4.len() as int, s4.len() as int));
    lemma_concat_ends(p4, s4.subrange(p4.len() as int, s4.len() as int));
    let body4 = " (\n\t\t`message`        String,\n\t\t`_key`           String,\n\t\t`_offset`        UInt64,\n\t\t`_partition`     UInt64,\n\t\t`_timestamp_ms`  DateTime64(3),\n\t\t`_topic`         LowCardinality(String),\n\t\t`_row_created`   DateTime\n\t) AS\nSELECT\n\tmessage,\n\t_key,\n\t_offset,\n\t_partition,\n\tassumeNotNull(_timestamp_ms) AS _timestamp_ms,\n\t_topic,\n\tnowInBlock() AS _row_created\nFROM "@;
    reveal_strlit(" (\n\t\t`message`        String,\n\t\t`_key`           String,\n\t\t`_offset`        UInt64,\n\t\t`_partition`     UInt64,\n\t\t`_timestamp_ms`  DateTime64(3),\n\t\t`_topic`         LowCardinality(String),\n\t\t`_row_created`   DateTime\n\t) AS\nSELECT\n\tmessage,\n\t_key,\n\t_offset,\n\t_partition,\n\tassumeNotNull(_timestamp_ms) AS _timestamp_ms,\n\t_topic,\n\tnowInBlock() AS _row_created\nFROM ");
    reveal_strlit("FROM ");
    let b4 = body4.subrange(0, body4.len() - 5);
    assert(body4 =~= b4 + "FROM "@);
    let x4 = "FROM "@ + qs + ";"@;
    assert(s4 =~= (p4 + b4) + x4);
    lemma_concat_ends(p4 + b4, x4);

    let p5 = cv + qualified_ident("raw"@, t + "_mv"@) + "\n\tON CLUSTER "@ + c + " TO "@ + qd;
    let s5 = raw_mv_sql(t, c, cols);
    assert(s5 =~= p5 + s5.subrange(p5.len() as int, s5.len() as int));
    lemma_concat_ends(p5, s5.subrange(p5.len() as int, s5.len() as int));
    let tail5 = "\t\t`_timestamp_ms`,\n\t\t`_topic`,\n\t\t`_row_created`\n\tFROM "@;
    reveal_strlit("\t\t`_timestamp_ms`,\n\t\t`_topic`,\n\t\t`_row_created`\n\tFROM ");
    reveal_strlit("\tFROM ");
    let b5 = tail5.subrange(0, tail5.len() - 6);
    assert(tail5 =~= b5 + "\tFROM "@);
    let x5 = "\tFROM "@ + qr + "\n) SETTINGS cast_keep_nullable = 1;"@;
    let a5 = p5 + " AS\nSELECT * FROM (\n\tSELECT\n"@ + extract_lines(cols);
    assert(s5 =~= (a5 + b5) + x5);
    lemma_concat_ends(a5 + b5, x5);
}

/// A single table's down migration drops the table that its up migration
/// creates, on the same cluster; the up statement ends with the key and the
/// index granularity.
pub proof fn law_table_migration_pair(
    t: Seq<char>,
    cols: Seq<Column>,
    e: TableEngine,
    order: Seq<Seq<char>>,
    sums: Seq<Seq<char>>,
    cluster: Option<Seq<char>>,
)
    ensures
        starts_with(
            table_up_sql(t, cols, e, order, sums, cluster),
            "CREATE TABLE IF NOT EXISTS "@ + quoted_ident(t) + cluster_clause(cluster) + "\n("@,
        ),
        starts_with(
            table_down_sql(t, cluster),
            "DROP TABLE IF EXISTS "@ + quoted_ident(t) + cluster_clause(cluster),
        ),
        ends_with(
            table_up_sql(t, cols, e, order, sums, cluster),
            "\tORDER BY "@ + order_sql(order) + "\n\tSETTINGS index_granularity = 8192;"@,
        ),
{
    let up = table_up_sql(t, cols, e, order, sums, cluster);
    let p = "CREATE TABLE IF NOT EXISTS "@ + quoted_ident(t) + cluster_clause(cluster) + "\n("@;
    reveal_strlit("\n(\n");
    reveal_strlit("\n(");
    reveal_strlit("\n");
    let rest = "\n"@ + join_seqs(table_column_lines(cols), ",\n"@) + "\n"@ + ")\n\tENGINE = "@
        + engine_sql(e, t, sums) + "\n"@ + partition_sql(cols, order);
    let x = "\tORDER BY "@ + order_sql(order) + "\n\tSETTINGS index_granularity = 8192;"@;
    assert("\n(\n"@ =~= "\n("@ + "\n"@);
    assert(up =~= p + (rest + x));
    lemma_concat_ends(p, rest + x);
    assert(up =~= (p + rest) + x);
    lemma_concat_ends(p + rest, x);
    let dp = "DROP TABLE IF EXISTS "@ + quoted_ident(t) + cluster_clause(cluster);
    let down = table_down_sql(t, cluster);
    match cluster {
        Some(c) => {
            assert(down =~= dp + " SYNC;"@);
            lemma_concat_ends(dp, " SYNC;"@);
        },
        None => {
            assert(down =~= dp + ";"@);
            lemma_concat_ends(dp, ";"@);
        },
    }
}

/// A table is partitioned by month exactly when its first `ORDER BY` field
/// is a `DateTime64` column, and then by that field; an empty key is
/// written `tuple()`.
pub proof fn law_partition_rule(cols: Seq<Column>, order: Seq<Seq<char>>)
    ensures
        partition_sql(cols, order).len() > 0 <==> (order.len() > 0 && exists|i: int|
            0 <= i < cols.len() && (#[trigger] cols[i]).name@ == order[0] && cols[i].ch_type
                == ColumnType::DateTime64),
        partition_sql(cols, order).len() > 0 ==> partition_sql(cols, order)
            == "\tPARTITION BY toYYYYMM("@ + quoted_ident(order[0]) + ")\n"@,
        order.len() == 0 ==> order_sql(order) == "tuple()"@,
{
    reveal_strlit("\tPARTITION BY toYYYYMM(");
}

/// The five objects of the pipeline, in the order the up migration creates
/// them: the streams, raw and datalake tables, then the raw and streams views.
pub open spec fn kafka_objects(t: Seq<char>) -> Seq<Seq<char>> {
    seq![
        qualified_ident("streams"@, t),
        qualified_ident("raw"@, t),
        qualified_ident("datalake"@, t),
        qualified_ident("raw"@, t + "_mv"@),
        qualified_ident("streams"@, t + "_mv"@),
    ]
}

/// The statement that drops one object of the pipeline on the cluster.
pub open spec fn kafka_drop(kind: Seq<char>, object: Seq<char>, c: Seq<char>) -> Seq<char> {
    "DROP "@ + kind + " IF EXISTS "@ + object + " ON CLUSTER "@ + c + " SYNC;"@
}

/// The pipeline's down migration drops exactly the objects its up migration
/// creates, one statement per line, in the reverse order of creation: each
/// view before the tables it reads and writes.
pub proof fn law_kafka_down_reverses_up(t: Seq<char>, c: Seq<char>, k: Seq<char>, cols: Seq<Column>)
    ensures
        ({
            let o = kafka_objects(t);
            &&& starts_with(streams_table_sql(t, c, k), "CREATE TABLE IF NOT EXISTS "@ + o[0])
            &&& starts_with(raw_table_sql(t, c), "CREATE TABLE IF NOT EXISTS "@ + o[1])
            &&& starts_with(datalake_table_sql(t, c, cols), "CREATE TABLE IF NOT EXISTS "@ + o[2])
            &&& starts_with(raw_mv_sql(t, c, cols), "CREATE MATERIALIZED VIEW IF NOT EXISTS "@ + o[3])
            &&& starts_with(streams_mv_sql(t, c), "CREATE MATERIALIZED VIEW IF NOT EXISTS "@ + o[4])
            &&& kafka_down_sql(t, c) == join_seqs(
                seq![
                    kafka_drop("VIEW"@, o[4], c),
                    kafka_drop("VIEW"@, o[3], c),
                    kafka_drop("TABLE"@, o[2], c),
                    kafka_drop("TABLE"@, o[1], c),
                    kafka_drop("TABLE"@, o[0], c),
                ],
                "\n"@,
            )
        }),
{
    lemma_kafka_creates_objects(t, c, k, cols);
    lemma_kafka_down_statements(t, c);
}

proof fn lemma_kafka_creates_objects(t: Seq<char>, c: Seq<char>, k: Seq<char>, cols: Seq<Column>)
    ensures
        ({
            let o = kafka_objects(t);
            &&& starts_with(streams_table_sql(t, c, k), "CREATE TABLE IF NOT EXISTS "@ + o[0])
            &&& starts_with(raw_table_sql(t, c), "CREATE TABLE IF NOT EXISTS "@ + o[1])
            &&& starts_with(datalake_table_sql(t, c, cols), "CREATE TABLE IF NOT EXISTS "@ + o[2])
            &&& starts_with(raw_mv_sql(t, c, cols), "CREATE MATERIALIZED VIEW IF NOT EXISTS "@ + o[3])
            &&& starts_with(streams_mv_sql(t, c), "CREATE MATERIALIZED VIEW IF NOT EXISTS "@ + o[4])
        }),
{
    let o = kafka_objects(t);
    law_views_connect_the_stages(t, c, k, cols);
    let ct = "CREATE TABLE IF NOT EXISTS "@;
    let cv = "CREATE MATERIALIZED VIEW IF NOT EXISTS "@;
    let oc = " ON CLUSTER "@;
    lemma_concat_ends(ct + o[0], oc + c);
    assert(ct + o[0] + oc + c =~= (ct + o[0]) + (oc + c));
    lemma_concat_ends(ct + o[1], oc + c);
    assert(ct + o[1] + oc + c =~= (ct + o[1]) + (oc + c));
    lemma_concat_ends(ct + o[2], oc + c);
    assert(ct + o[2] + oc + c =~= (ct + o[2]) + (oc + c));
    let r3 = "\n\tON CLUSTER "@ + c + " TO "@ + o[2];
    lemma_concat_ends(cv + o[3], r3);
    assert(cv + o[3] + "\n\tON CLUSTER "@ + c + " TO "@ + o[2] =~= (cv + o[3]) + r3);
    let r4 = "\n\tON CLUSTER "@ + c + "\n\tTO "@ + o[1];
    lemma_concat_ends(cv + o[4], r4);
    assert(cv + o[4] + "\n\tON CLUSTER "@ + c + "\n\tTO "@ + o[1] =~= (cv + o[4]) + r4);
    lemma_starts_with_trans(streams_table_sql(t, c, k), ct + o[0] + oc + c, ct + o[0]);
    lemma_starts_with_trans(raw_table_sql(t, c), ct + o[1] + oc + c, ct + o[1]);
    lemma_starts_with_trans(datalake_table_sql(t, c, cols), ct + o[2] + oc + c, ct + o[2]);
    lemma_starts_with_trans(raw_mv_sql(t, c, cols), (cv + o[3]) + r3, cv + o[3]);
    lemma_starts_with_trans(streams_mv_sql(t, c), (cv + o[4]) + r4, cv + o[4]);
}

proof fn lemma_join_five(d0: Seq<char>, d1: Seq<char>, d2: Seq<char>, d3: Seq<char>, d4: Seq<char>, sep: Seq<char>)
    ensures
        join_seqs(seq![d0, d1, d2, d3, d4], sep) == d0 + sep + d1 + sep + d2 + sep + d3 + sep + d4,
{
    let parts = seq![d0, d1, d2, d3, d4];
    assert(parts.take(1) =~= seq![d0]);
    assert(parts.take(2).drop_last() =~= parts.take(1));
    assert(parts.take(3).drop_last() =~= parts.take(2));
    assert(parts.take(4).drop_last() =~= parts.take(3));
    assert(parts.drop_last() =~= parts.take(4));
    assert(join_seqs(parts.take(1), sep) == d0);
    assert(join_seqs(parts.take(2), sep) == d0 + sep + d1);
    assert(join_seqs(parts.take(3), sep) == d0 + sep + d1 + sep + d2);
    assert(join_seqs(parts.take(4), sep) == d0 + sep + d1 + sep + d2 + sep + d3);
}

proof fn lemma_drop_lines(o0: Seq<char>, o1: Seq<char>, o2: Seq<char>, o3: Seq<char>, o4: Seq<char>, c: Seq<char>)
    ensures
        "DROP VIEW IF EXISTS "@ + o4 + " ON CLUSTER "@ + c + " SYNC;\nDROP VIEW IF EXISTS "@ + o3
            + " ON CLUSTER "@ + c + " SYNC;\nDROP TABLE IF EXISTS "@ + o2 + " ON CLUSTER "@ + c
            + " SYNC;\nDROP TABLE IF EXISTS "@ + o1 + " ON CLUSTER "@ + c
            + " SYNC;\nDROP TABLE IF EXISTS "@ + o0 + " ON CLUSTER "@ + c + " SYNC;"@ == join_seqs(
            seq![
                kafka_drop("VIEW"@, o4, c),
                kafka_drop("VIEW"@, o3, c),
                kafka_drop("TABLE"@, o2, c),
                kafka_drop("TABLE"@, o1, c),
                kafka_drop("TABLE"@, o0, c),
            ],
            "\n"@,
        ),
{
    let sep = "\n"@;
    let sy = " SYNC;"@;
    let oc = " ON CLUSTER "@;
    let hv = "DROP "@ + "VIEW"@ + " IF EXISTS "@;
    let ht = "DROP "@ + "TABLE"@ + " IF EXISTS "@;
    let lv = " SYNC;\nDROP VIEW IF EXISTS "@;
    let lt = " SYNC;\nDROP TABLE IF EXISTS "@;
    assert("DROP VIEW IF EXISTS "@ =~= hv) by {
        reveal_strlit("DROP ");
        reveal_strlit("VIEW");
        reveal_strlit(" IF EXISTS ");
        reveal_strlit("DROP VIEW IF EXISTS ");
    }
    assert(lv =~= sy + sep + hv) by {
        reveal_strlit("DROP ");
        reveal_strlit("VIEW");
        reveal_strlit(" IF EXISTS ");
        reveal_strlit(" SYNC;");
        reveal_strlit("\n");
        reveal_strlit(" SYNC;\nDROP VIEW IF EXISTS ");
    }
    assert(lt =~= sy + sep + ht) by {
        reveal_strlit("DROP ");
        reveal_strlit("TABLE");
        reveal_strlit(" IF EXISTS ");
        reveal_strlit(" SYNC;");
        reveal_strlit("\n");
        reveal_strlit(" SYNC;\nDROP TABLE IF EXISTS ");
    }
    let d0 = kafka_drop("VIEW"@, o4, c);
    let d1 = kafka_drop("VIEW"@, o3, c);
    let d2 = kafka_drop("TABLE"@, o2, c);
    let d3 = kafka_drop("TABLE"@, o1, c);
    let d4 = kafka_drop("TABLE"@, o0, c);
    let k1 = "DROP VIEW IF EXISTS "@ + o4 + oc + c;
    let k2 = k1 + lv + o3 + oc + c;
    let k3 = k2 + lt + o2 + oc + c;
    let k4 = k3 + lt + o1 + oc + c;
    let k5 = k4 + lt + o0 + oc + c;
    assert(k1 + sy =~= d0);
    lemma_drop_step(k1, lv, o3, c, hv, k1 + sy);
    lemma_drop_step(k2, lt, o2, c, ht, k2 + sy);
    lemma_drop_step(k3, lt, o1, c, ht, k3 + sy);
    lemma_drop_step(k4, lt, o0, c, ht, k4 + sy);
    lemma_join_five(d0, d1, d2, d3, d4, sep);
}

proof fn lemma_drop_step(k: Seq<char>, l: Seq<char>, o: Seq<char>, c: Seq<char>, h: Seq<char>, j: Seq<char>)
    requires
        k + " SYNC;"@ == j,
        l == " SYNC;"@ + "\n"@ + h,
    ensures
        k + l + o + " ON CLUSTER "@ + c + " SYNC;"@ == j + "\n"@ + (h + o + " ON CLUSTER "@ + c
            + " SYNC;"@),
{
    assert(k + l + o + " ON CLUSTER "@ + c + " SYNC;"@ =~= j + "\n"@ + (h + o + " ON CLUSTER "@
        + c + " SYNC;"@));
}

proof fn lemma_kafka_down_statements(t: Seq<char>, c: Seq<char>)
    ensures
        ({
            let o = kafka_objects(t);
            kafka_down_sql(t, c) == join_seqs(
                seq![
                    kafka_drop("VIEW"@, o[4], c),
                    kafka_drop("VIEW"@, o[3], c),
                    kafka_drop("TABLE"@, o[2], c),
                    kafka_drop("TABLE"@, o[1], c),
                    kafka_drop("TABLE"@, o[0], c),
                ],
                "\n"@,
            )
        }),
{
    let o = kafka_objects(t);
    lemma_drop_lines(o[0], o[1], o[2], o[3], o[4], c);
}

} // verus!
