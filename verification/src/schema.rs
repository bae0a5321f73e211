use vstd::prelude::*;
use crate::text::chars_of;
use crate::text::str_eq;

verus! {

/// The ClickHouse column types that the library infers or accepts.
#[derive(Debug, Clone, Copy, PartialEq, Eq, Structural)]
pub enum ColumnType {
    String,
    Int64,
    UInt64,
    Float64,
    Bool,
    DateTime64,
}

/// ClickHouse spelling of a column type.
pub open spec fn column_type_name(t: ColumnType) -> Seq<char> {
    match t {
        ColumnType::String => "String"@,
        ColumnType::Int64 => "Int64"@,
        ColumnType::UInt64 => "UInt64"@,
        ColumnType::Float64 => "Float64"@,
        ColumnType::Bool => "Bool"@,
        ColumnType::DateTime64 => "DateTime64(3)"@,
    }
}

/// ClickHouse spelling of the nullable form of a column type.
pub open spec fn nullable_type_name(t: ColumnType) -> Seq<char> {
    "Nullable("@ + column_type_name(t) + ")"@
}

/// The spelling used for a column type, nullable or not.
pub open spec fn ch_type_name(t: ColumnType, nullable: bool) -> Seq<char> {
    if nullable {
        nullable_type_name(t)
    } else {
        column_type_name(t)
    }
}

impl ColumnType {
    pub fn as_str(&self) -> (s: &'static str)
        ensures
            s@ == column_type_name(*self),
    {
        match self {
            ColumnType::String => "String",
            ColumnType::Int64 => "Int64",
            ColumnType::UInt64 => "UInt64",
            ColumnType::Float64 => "Float64",
            ColumnType::Bool => "Bool",
            ColumnType::DateTime64 => "DateTime64(3)",
        }
    }

    pub fn as_nullable_str(&self) -> (s: &'static str)
        ensures
            s@ == nullable_type_name(*self),
    {
        proof {
            reveal_strlit("Nullable(");
            reveal_strlit(")");
        }
        match self {
            ColumnType::String => {
                proof {
                    reveal_strlit("String");
                    reveal_strlit("Nullable(String)");
                }
                "Nullable(String)"
            },
            ColumnType::Int64 => {
                proof {
                    reveal_strlit("Int64");
                    reveal_strlit("Nullable(Int64)");
                }
                "Nullable(Int64)"
            },
            ColumnType::UInt64 => {
                proof {
                    reveal_strlit("UInt64");
                    reveal_strlit("Nullable(UInt64)");
                }
                "Nullable(UInt64)"
            },
            ColumnType::Float64 => {
                proof {
                    reveal_strlit("Float64");
                    reveal_strlit("Nullable(Float64)");
                }
                "Nullable(Float64)"
            },
            ColumnType::Bool => {
                proof {
                    reveal_strlit("Bool");
                    reveal_strlit("Nullable(Bool)");
                }
                "Nullable(Bool)"
            },
            ColumnType::DateTime64 => {
                proof {
                    reveal_strlit("DateTime64(3)");
                    reveal_strlit("Nullable(DateTime64(3))");
                }
                "Nullable(DateTime64(3))"
            },
        }
    }

    pub fn as_ch_str(&self, nullable: bool) -> (s: &'static str)
        ensures
            s@ == ch_type_name(*self, nullable),
    {
        if nullable {
            self.as_nullable_str()
        } else {
            self.as_str()
        }
    }
}


/// One inferred column of a table.
pub struct Column {
    pub name: String,
    pub ch_type: ColumnType,
    pub nullable: bool,
    pub low_cardinality: bool,
}

/// The SQL type written for a column: its (nullable) type, wrapped in
/// `LowCardinality(..)` when the column is marked low-cardinality.
pub open spec fn column_sql_type(c: Column) -> Seq<char> {
    if c.low_cardinality {
        "LowCardinality("@ + ch_type_name(c.ch_type, c.nullable) + ")"@
    } else {
        ch_type_name(c.ch_type, c.nullable)
    }
}

impl Column {
    pub fn ch_type_str(&self) -> (s: String)
        ensures
            s@ == column_sql_type(*self),
    {
        let base = self.ch_type.as_ch_str(self.nullable);
        if self.low_cardinality {
            let mut s = String::from_str("LowCardinality(");
            s.append(base);
            s.append(")");
            s
        } else {
            String::from_str(base)
        }
    }
}

/// A table name with its columns, in order.
pub struct InferredSchema {
    pub table_name: String,
    pub columns: Vec<Column>,
}

/// The ClickHouse table engines the generators know.
#[derive(Debug, Clone, Copy, PartialEq, Eq, Structural)]
pub enum TableEngine {
    MergeTree,
    ReplicatedMergeTree,
    ReplacingMergeTree,
    SummingMergeTree,
}

/// The name of an engine, as ClickHouse spells it.
pub open spec fn engine_name(e: TableEngine) -> Seq<char> {
    match e {
        TableEngine::MergeTree => "MergeTree"@,
        TableEngine::ReplicatedMergeTree => "ReplicatedMergeTree"@,
        TableEngine::ReplacingMergeTree => "ReplacingMergeTree"@,
        TableEngine::SummingMergeTree => "SummingMergeTree"@,
    }
}

/// The engine a name denotes, if any.
pub open spec fn engine_named(s: Seq<char>) -> Option<TableEngine> {
    if s == "MergeTree"@ {
        Some(TableEngine::MergeTree)
    } else if s == "ReplicatedMergeTree"@ {
        Some(TableEngine::ReplicatedMergeTree)
    } else if s == "ReplacingMergeTree"@ {
        Some(TableEngine::ReplacingMergeTree)
    } else if s == "SummingMergeTree"@ {
        Some(TableEngine::SummingMergeTree)
    } else {
        None
    }
}

/// The message for a name that denotes no engine.
pub open spec fn unknown_engine_message(s: Seq<char>) -> Seq<char> {
    "unknown engine '"@ + s
        + "'; valid options: MergeTree, ReplicatedMergeTree, ReplacingMergeTree, SummingMergeTree"@
}

impl TableEngine {
    /// Reads an engine from its name.
    pub fn from_name(s: &str) -> (res: Result<TableEngine, String>)
        ensures
            match engine_named(s@) {
                Some(e) => res == Ok::<TableEngine, String>(e),
                None => res is Err && res->Err_0@ == unknown_engine_message(s@),
            },
    {
        if str_eq(s, "MergeTree") {
            Ok(TableEngine::MergeTree)
        } else if str_eq(s, "ReplicatedMergeTree") {
            Ok(TableEngine::ReplicatedMergeTree)
        } else if str_eq(s, "ReplacingMergeTree") {
            Ok(TableEngine::ReplacingMergeTree)
        } else if str_eq(s, "SummingMergeTree") {
            Ok(TableEngine::SummingMergeTree)
        } else {
            let mut m = String::from_str("unknown engine '");
            m.append(s);
            m.append(
                "'; valid options: MergeTree, ReplicatedMergeTree, ReplacingMergeTree, SummingMergeTree",
            );
            Err(m)
        }
    }

    /// The engine's name.
    pub fn as_str(&self) -> (s: &'static str)
        ensures
            s@ == engine_name(*self),
    {
        match self {
            TableEngine::MergeTree => "MergeTree",
            TableEngine::ReplicatedMergeTree => "ReplicatedMergeTree",
            TableEngine::ReplacingMergeTree => "ReplacingMergeTree",
            TableEngine::SummingMergeTree => "SummingMergeTree",
        }
    }

    /// The engine's name, as an owned string.
    pub fn to_string(&self) -> (s: String)
        ensures
            s@ == engine_name(*self),
    {
        String::from_str(self.as_str())
    }
}

impl std::str::FromStr for TableEngine {
    type Err = String;

    fn from_str(s: &str) -> (res: Result<TableEngine, String>)
        ensures
            match engine_named(s@) {
                Some(e) => res == Ok::<TableEngine, String>(e),
                None => res is Err && res->Err_0@ == unknown_engine_message(s@),
            },
    {
        TableEngine::from_name(s)
    }
}

/// Reading an engine's name gives the engine back.
pub proof fn law_engine_name_roundtrip(e: TableEngine)
    ensures
        engine_named(engine_name(e)) == Some(e),
{
    reveal_strlit("MergeTree");
    reveal_strlit("ReplicatedMergeTree");
    reveal_strlit("ReplacingMergeTree");
    reveal_strlit("SummingMergeTree");
    assert("MergeTree"@.len() == 9);
    assert("ReplicatedMergeTree"@[4] == 'i');
    assert("ReplacingMergeTree"@[4] == 'a');
    assert("SummingMergeTree"@[0] == 'S');
}

/// An engine table, its `ORDER BY` key and its summed columns.
pub struct EngineConfig {
    pub engine: TableEngine,
    pub order_by: Vec<String>,
    pub sum_columns: Vec<String>,
}

/// `s` with every `q1` and every `q2` written twice.
pub open spec fn doubled(s: Seq<char>, q1: char, q2: char) -> Seq<char>
    decreases s.len(),
{
    if s.len() == 0 {
        Seq::empty()
    } else {
        let c = s.last();
        doubled(s.drop_last(), q1, q2) + if c == q1 || c == q2 {
            seq![c, c]
        } else {
            seq![c]
        }
    }
}

/// A backtick-quoted identifier, inner backticks doubled.
pub open spec fn quoted_ident(s: Seq<char>) -> Seq<char> {
    seq!['`'] + doubled(s, '`', '`') + seq!['`']
}

/// The body of a single-quoted string literal: quotes and backslashes doubled.
pub open spec fn escaped_literal(s: Seq<char>) -> Seq<char> {
    doubled(s, '\'', '\\')
}

/// `db.name`, both parts quoted as identifiers.
pub open spec fn qualified_ident(db: Seq<char>, name: Seq<char>) -> Seq<char> {
    quoted_ident(db) + seq!['.'] + quoted_ident(name)
}

fn push_doubled(out: &mut String, s: &str, q1: char, q2: char)
    ensures
        final(out)@ == old(out)@ + doubled(s@, q1, q2),
{
    let cs = chars_of(s);
    let mut i: usize = 0;
    let ghost start = out@;
    while i < cs.len()
        invariant
            cs@ == s@,
            i <= cs.len(),
            out@ == start + doubled(cs@.take(i as int), q1, q2),
        decreases cs.len() - i,
    {
        let c = cs[i];
        assert(cs@.take(i + 1).drop_last() =~= cs@.take(i as int));
        if c == q1 || c == q2 {
            out.push(c);
            out.push(c);
        } else {
            out.push(c);
        }
        i = i + 1;
    }
    assert(cs@.take(cs.len() as int) =~= cs@);
}

/// Quotes an identifier with backticks, doubling backticks inside it.
pub fn quote_ident(s: &str) -> (res: String)
    ensures
        res@ == quoted_ident(s@),
{
    let mut out = String::new();
    out.push('`');
    push_doubled(&mut out, s, '`', '`');
    out.push('`');
    out
}

/// Escapes text for a single-quoted string literal.
pub fn quote_string_literal(s: &str) -> (res: String)
    ensures
        res@ == escaped_literal(s@),
{
    let mut out = String::new();
    push_doubled(&mut out, s, '\'', '\\');
    out
}

/// Quotes `db.name` as two identifiers.
pub fn quote_qualified(db: &str, name: &str) -> (res: String)
    ensures
        res@ == qualified_ident(db@, name@),
{
    let mut out = quote_ident(db);
    out.push('.');
    let n = quote_ident(name);
    out.append(n.as_str());
    out
}

proof fn lemma_doubled_injective(a: Seq<char>, b: Seq<char>, q1: char, q2: char)
    requires
        doubled(a, q1, q2) == doubled(b, q1, q2),
    ensures
        a == b,
    decreases a.len() + b.len(),
{
    let da = doubled(a, q1, q2);
    if a.len() == 0 {
        if b.len() != 0 {
            assert(doubled(b, q1, q2).len() > 0);
        }
    } else if b.len() == 0 {
        assert(da.len() > 0);
    } else {
        let ca = a.last();
        let cb = b.last();
        let ra = doubled(a.drop_last(), q1, q2);
        let rb = doubled(b.drop_last(), q1, q2);
        let sa = if ca == q1 || ca == q2 { seq![ca, ca] } else { seq![ca] };
        let sb = if cb == q1 || cb == q2 { seq![cb, cb] } else { seq![cb] };
        assert(da == ra + sa);
        assert(da == rb + sb);
        assert(da.last() == ca);
        assert(da.last() == cb);
        assert(sa == sb);
        assert(ra =~= da.subrange(0, da.len() - sa.len()));
        assert(rb =~= da.subrange(0, da.len() - sb.len()));
        lemma_doubled_injective(a.drop_last(), b.drop_last(), q1, q2);
        assert(a =~= a.drop_last().push(ca));
        assert(b =~= b.drop_last().push(cb));
    }
}

/// Different identifiers quote differently.
pub proof fn law_quote_ident_injective(a: Seq<char>, b: Seq<char>)
    requires
        quoted_ident(a) == quoted_ident(b),
    ensures
        a == b,
{
    let qa = quoted_ident(a);
    assert(doubled(a, '`', '`') =~= qa.subrange(1, qa.len() - 1));
    assert(doubled(b, '`', '`') =~= qa.subrange(1, qa.len() - 1));
    lemma_doubled_injective(a, b, '`', '`');
}

/// Different texts escape differently inside a string literal.
pub proof fn law_escaped_literal_injective(a: Seq<char>, b: Seq<char>)
    requires
        escaped_literal(a) == escaped_literal(b),
    ensures
        a == b,
{
    lemma_doubled_injective(a, b, '\'', '\\');
}

} // verus!
